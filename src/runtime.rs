//! Which external runtimes a set of template files needs.
use vstd::prelude::*;

use crate::path::{extension_of, file_extension};
use crate::plugin::PluginMetadata;
use crate::text::str_eq;

verus! {

/// The fixed table of built-in delegated engines: extension to runtime.
pub open spec fn builtin_runtime(ext: Seq<char>) -> Option<Seq<char>> {
    if ext == "erb"@ {
        Some("ruby-runtime"@)
    } else if ext == "jinja"@ {
        Some("python-runtime"@)
    } else if ext == "ejs"@ || ext == "hbs"@ {
        Some("node-runtime"@)
    } else {
        None
    }
}

/// The fixed table of built-in delegated engines: extension to the script
/// that the runtime runs.
pub open spec fn builtin_script(ext: Seq<char>) -> Option<Seq<char>> {
    if ext == "erb"@ {
        Some("render_erb.rb"@)
    } else if ext == "jinja"@ {
        Some("render_jinja.py"@)
    } else if ext == "ejs"@ {
        Some("render_ejs.js"@)
    } else if ext == "hbs"@ {
        Some("render_hbs.js"@)
    } else {
        None
    }
}

/// The plugin's custom renderer command, if a plugin is active and declares one.
pub open spec fn custom_command(plugin: Option<&PluginMetadata>) -> Option<Seq<char>> {
    match plugin {
        Some(p) => match p.custom_renderer_command {
            Some(c) => Some(c@),
            None => None,
        },
        None => None,
    }
}

/// The runtime that rendering the file at `path` requires: the plugin's
/// custom renderer where it declares one, which overrides the built-in
/// table; else the table's runtime for the file's extension; else none.
pub open spec fn required_runtime(path: Seq<char>, custom: Option<Seq<char>>) -> Option<Seq<char>> {
    match custom {
        Some(c) => Some(c),
        None => match extension_of(path) {
            Some(e) => builtin_runtime(e),
            None => None,
        },
    }
}

/// The built-in runtime for a file extension.
pub fn builtin_runtime_for_extension(ext: &str) -> (r: Option<&'static str>)
    ensures
        match r {
            Some(s) => builtin_runtime(ext@) == Some(s@),
            None => builtin_runtime(ext@) is None,
        },
{
    if str_eq(ext, "erb") {
        Some("ruby-runtime")
    } else if str_eq(ext, "jinja") {
        Some("python-runtime")
    } else if str_eq(ext, "ejs") || str_eq(ext, "hbs") {
        Some("node-runtime")
    } else {
        None
    }
}

/// The built-in engine's script for a file extension.
pub fn builtin_script_for_extension(ext: &str) -> (r: Option<&'static str>)
    ensures
        match r {
            Some(s) => builtin_script(ext@) == Some(s@),
            None => builtin_script(ext@) is None,
        },
{
    if str_eq(ext, "erb") {
        Some("render_erb.rb")
    } else if str_eq(ext, "jinja") {
        Some("render_jinja.py")
    } else if str_eq(ext, "ejs") {
        Some("render_ejs.js")
    } else if str_eq(ext, "hbs") {
        Some("render_hbs.js")
    } else {
        None
    }
}

/// The plugin's custom renderer command.
pub fn plugin_custom_command(plugin: Option<&PluginMetadata>) -> (r: Option<String>)
    ensures
        match r {
            Some(c) => custom_command(plugin) == Some(c@),
            None => custom_command(plugin) is None,
        },
{
    match plugin {
        Some(p) => match &p.custom_renderer_command {
            Some(c) => Some(c.clone()),
            None => None,
        },
        None => None,
    }
}

/// The runtime that rendering the file at `path` requires.
pub fn runtime_for_file(path: &str, plugin: Option<&PluginMetadata>) -> (r: Option<String>)
    ensures
        match r {
            Some(s) => required_runtime(path@, custom_command(plugin)) == Some(s@),
            None => required_runtime(path@, custom_command(plugin)) is None,
        },
{
    match plugin_custom_command(plugin) {
        Some(c) => Some(c),
        None => match file_extension(path) {
            Some(e) => match builtin_runtime_for_extension(e.as_str()) {
                Some(rt) => Some(rt.to_string()),
                None => None,
            },
            None => None,
        },
    }
}

/// No runtime is listed twice.
pub open spec fn distinct(s: Seq<String>) -> bool {
    forall|i: int, j: int| 0 <= i < j < s.len() ==> s[i]@ != s[j]@
}

/// `rt` is the runtime that one of `paths` requires.
pub open spec fn needed_by(paths: Seq<String>, custom: Option<Seq<char>>, rt: Seq<char>) -> bool {
    exists|k: int| 0 <= k < paths.len() && required_runtime(paths[k]@, custom) == Some(rt)
}

/// `rts` lists exactly the runtimes that rendering `paths` requires, each
/// once.
pub open spec fn is_requirement(
    rts: Seq<String>,
    paths: Seq<String>,
    custom: Option<Seq<char>>,
) -> bool {
    &&& distinct(rts)
    &&& forall|i: int| 0 <= i < rts.len() ==> needed_by(paths, custom, #[trigger] rts[i]@)
    &&& forall|k: int|
        0 <= k < paths.len() ==> match required_runtime(#[trigger] paths[k]@, custom) {
            Some(rt) => exists|i: int| 0 <= i < rts.len() && rts[i]@ == rt,
            None => true,
        }
}

/// The distinct runtimes that rendering the files at `paths` requires.
pub fn required_runtimes(paths: &Vec<String>, plugin: Option<&PluginMetadata>) -> (r: Vec<String>)
    ensures
        is_requirement(r@, paths@, custom_command(plugin)),
{
    let ghost custom = custom_command(plugin);
    let mut r: Vec<String> = Vec::new();
    let mut k: usize = 0;
    while k < paths.len()
        invariant
            k <= paths@.len(),
            custom == custom_command(plugin),
            distinct(r@),
            forall|i: int| 0 <= i < r@.len() ==> needed_by(paths@, custom, #[trigger] r@[i]@),
            forall|q: int|
                0 <= q < k ==> match required_runtime(#[trigger] paths@[q]@, custom) {
                    Some(rt) => exists|i: int| 0 <= i < r@.len() && r@[i]@ == rt,
                    None => true,
                },
        decreases paths@.len() - k,
    {
        match runtime_for_file(paths[k].as_str(), plugin) {
            Some(rt) => {
                let mut found = false;
                let mut i: usize = 0;
                while i < r.len()
                    invariant
                        i <= r@.len(),
                        found ==> exists|j: int| 0 <= j < r@.len() && r@[j]@ == rt@,
                        !found ==> forall|j: int| 0 <= j < i ==> r@[j]@ != rt@,
                    decreases r@.len() - i,
                {
                    if r[i] == rt {
                        found = true;
                    }
                    i += 1;
                }
                if !found {
                    let ghost old_r = r@;
                    assert(needed_by(paths@, custom, rt@)) by {
                        assert(required_runtime(paths@[k as int]@, custom) == Some(rt@));
                    }
                    r.push(rt);
                    assert forall|q: int|
                        0 <= q < k implies match required_runtime(#[trigger] paths@[q]@, custom) {
                        Some(x) => exists|i: int| 0 <= i < r@.len() && r@[i]@ == x,
                        None => true,
                    } by {
                        match required_runtime(paths@[q]@, custom) {
                            Some(x) => {
                                let i = choose|i: int| 0 <= i < old_r.len() && old_r[i]@ == x;
                                assert(r@[i]@ == x);
                            },
                            None => {},
                        }
                    }
                    assert(r@[old_r.len() as int]@ == required_runtime(paths@[k as int]@, custom).unwrap());
                }
            },
            None => {},
        }
        k += 1;
    }
    r
}

} // verus!
