//! Decisions of project initialisation and generation: which template is
//! fetched, where it goes, and where a generation reads its templates.
use vstd::prelude::*;

use crate::error::ForgeError;
use crate::path::{infer_template_name, join, join_path, template_name_of};
use crate::plugin::PluginMetadata;

verus! {

/// The generate command.
#[derive(Debug, Clone)]
pub enum GenerateSubcommand {
    /// Generate files from templates into `out`; `templates` overrides the
    /// plugin's default template root.
    Generate { out: String, templates: Option<String> },
}

/// What initialisation fetches and writes.
#[derive(Debug, Clone)]
pub struct InitPlan {
    pub template_name: String,
    pub template_url: String,
    /// Where the template is fetched to.
    pub target_dir: String,
    /// Where the project manifest is written.
    pub manifest_path: String,
}

/// The manifest's place in the project's state directory.
pub open spec fn manifest_path_of(forge_dir: Seq<char>, manifest_file: Seq<char>) -> Seq<char> {
    join(forge_dir, manifest_file)
}

/// Where the template named `name` is kept in the project's state directory.
pub open spec fn template_dir_of(forge_dir: Seq<char>, name: Seq<char>) -> Seq<char> {
    join(join(forge_dir, "templates"@), name)
}

/// The template chosen: the one given by URL, named after it; else the
/// plugin's first template; none where the plugin has no template.
pub open spec fn chosen_template(
    template_arg: Option<String>,
    plugin: PluginMetadata,
) -> Option<(Seq<char>, Seq<char>)> {
    match template_arg {
        Some(u) => Some((template_name_of(u@), u@)),
        None => if plugin.templates@.len() > 0 {
            Some((plugin.templates@[0].0@, plugin.templates@[0].1@))
        } else {
            None
        },
    }
}

/// The template to fetch: `(name, url)`.
pub fn resolve_template(template_arg: Option<String>, plugin: &PluginMetadata) -> (r: Option<
    (String, String),
>)
    ensures
        match r {
            Some((n, u)) => chosen_template(template_arg, *plugin) == Some((n@, u@)),
            None => chosen_template(template_arg, *plugin) is None,
        },
{
    match template_arg {
        Some(url) => {
            let name = infer_template_name(url.as_str());
            Some((name, url))
        },
        None => if plugin.templates.len() > 0 {
            Some((plugin.templates[0].0.clone(), plugin.templates[0].1.clone()))
        } else {
            None
        },
    }
}

/// Refuses to initialise over an existing manifest unless `force` is set.
pub fn init_guard(manifest_path: &str, manifest_exists: bool, force: bool) -> (r: Result<
    (),
    ForgeError,
>)
    ensures
        r is Ok <==> (!manifest_exists || force),
        r matches Err(ForgeError::ManifestExists(p)) ==> p@ == manifest_path@,
        r matches Err(e) ==> e is ManifestExists,
{
    if manifest_exists && !force {
        Err(ForgeError::ManifestExists(manifest_path.to_owned()))
    } else {
        Ok(())
    }
}

/// Plans initialisation in the state directory `forge_dir`: the template
/// chosen, fetched under `templates/<name>`, and the path of the manifest
/// file `manifest_file`. Fails where no template is given and the plugin
/// has none.
pub fn plan_init(
    forge_dir: &str,
    manifest_file: &str,
    plugin: &PluginMetadata,
    template_arg: Option<String>,
) -> (r: Result<InitPlan, ForgeError>)
    ensures
        match chosen_template(template_arg, *plugin) {
            Some((n, u)) => r matches Ok(p) && p.template_name@ == n && p.template_url@ == u
                && p.target_dir@ == template_dir_of(forge_dir@, n) && p.manifest_path@
                == manifest_path_of(forge_dir@, manifest_file@),
            None => r matches Err(ForgeError::NotFound(_)),
        },
{
    match resolve_template(template_arg, plugin) {
        Some((name, url)) => {
            let templates = join_path(forge_dir, "templates");
            let target_dir = join_path(templates.as_str(), name.as_str());
            let manifest_path = join_path(forge_dir, manifest_file);
            Ok(InitPlan { template_name: name, template_url: url, target_dir, manifest_path })
        },
        None => Err(ForgeError::NotFound("the plugin defines no template".to_string())),
    }
}

/// The template root a generation reads: the one given; else where
/// initialisation keeps the plugin's first template; none where the plugin
/// has no template.
pub fn template_root_for(
    templates_arg: Option<String>,
    forge_dir: &str,
    plugin: &PluginMetadata,
) -> (r: Option<String>)
    ensures
        match templates_arg {
            Some(t) => r matches Some(x) && x@ == t@,
            None => if plugin.templates@.len() > 0 {
                r matches Some(x) && x@ == template_dir_of(forge_dir@, plugin.templates@[0].0@)
            } else {
                r is None
            },
        },
{
    match templates_arg {
        Some(t) => Some(t),
        None => if plugin.templates.len() > 0 {
            let templates = join_path(forge_dir, "templates");
            Some(join_path(templates.as_str(), plugin.templates[0].0.as_str()))
        } else {
            None
        },
    }
}

} // verus!
