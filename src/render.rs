//! The choice of a rendering strategy for a file, and the protocol by which
//! a delegate engine is invoked.
use vstd::prelude::*;

use crate::error::ForgeError;
use crate::path::{extension_of, file_extension, join, join_path};
use crate::plugin::PluginMetadata;
use crate::runtime::{
    builtin_runtime,
    builtin_runtime_for_extension,
    builtin_script,
    builtin_script_for_extension,
    custom_command,
    plugin_custom_command,
};

verus! {

/// How one file is rendered.
#[derive(Debug, Clone)]
pub enum RenderStrategy {
    /// The built-in substitution engine.
    Builtin,
    /// An external engine: `runtime` is launched with `script` as its first
    /// argument.
    Delegate { runtime: String, script: String },
}

impl View for RenderStrategy {
    /// `None` for the built-in engine, else `(runtime, script)`.
    type V = Option<(Seq<char>, Seq<char>)>;

    open spec fn view(&self) -> Option<(Seq<char>, Seq<char>)> {
        match self {
            RenderStrategy::Builtin => None,
            RenderStrategy::Delegate { runtime, script } => Some((runtime@, script@)),
        }
    }
}

/// The extension of `path`, empty where it has none.
pub open spec fn extension_or_empty(path: Seq<char>) -> Seq<char> {
    match extension_of(path) {
        Some(e) => e,
        None => Seq::empty(),
    }
}

/// The strategy for the file at `path`: a built-in delegated engine where
/// the extension has one, with its script under `script_dir`; else the
/// plugin's custom renderer, launched as runtime and named as the command;
/// else the built-in substitution engine.
pub open spec fn strategy_for(
    path: Seq<char>,
    custom: Option<Seq<char>>,
    script_dir: Seq<char>,
) -> Option<(Seq<char>, Seq<char>)> {
    let ext = extension_or_empty(path);
    match builtin_runtime(ext) {
        Some(rt) => Some((rt, join(script_dir, builtin_script(ext).unwrap()))),
        None => match custom {
            Some(c) => Some((c, c)),
            None => None,
        },
    }
}

proof fn lemma_builtin_tables_agree(ext: Seq<char>)
    ensures
        builtin_runtime(ext) is Some <==> builtin_script(ext) is Some,
{
}

/// Selects the strategy that renders the file at `path`; `script_dir` holds
/// the built-in engines' scripts.
pub fn select_strategy(
    path: &str,
    plugin: Option<&PluginMetadata>,
    script_dir: &str,
) -> (r: RenderStrategy)
    ensures
        r@ == strategy_for(path@, custom_command(plugin), script_dir@),
{
    let ext = match file_extension(path) {
        Some(e) => e,
        None => String::new(),
    };
    proof {
        lemma_builtin_tables_agree(ext@);
    }
    match builtin_runtime_for_extension(ext.as_str()) {
        Some(rt) => {
            let script = match builtin_script_for_extension(ext.as_str()) {
                Some(s) => s,
                None => "",
            };
            RenderStrategy::Delegate { runtime: rt.to_string(), script: join_path(script_dir, script) }
        },
        None => match plugin_custom_command(plugin) {
            Some(c) => RenderStrategy::Delegate { runtime: c.clone(), script: c },
            None => RenderStrategy::Builtin,
        },
    }
}

/// The arguments a delegate engine is launched with, in order: the script
/// or command, the input path, the output path and the path of the file
/// that holds the variables as JSON.
pub fn delegate_args(script: &str, input: &str, output: &str, variables_file: &str) -> (r: Vec<
    String,
>)
    ensures
        r@.len() == 4,
        r@[0]@ == script@,
        r@[1]@ == input@,
        r@[2]@ == output@,
        r@[3]@ == variables_file@,
{
    let mut r: Vec<String> = Vec::new();
    r.push(script.to_owned());
    r.push(input.to_owned());
    r.push(output.to_owned());
    r.push(variables_file.to_owned());
    r
}

/// The outcome of a delegate run on `input`, which only its exit status
/// decides: success, or a render failure of that file.
pub fn delegate_outcome(input: &str, exit_success: bool) -> (r: Result<(), ForgeError>)
    ensures
        exit_success <==> r is Ok,
        r matches Err(ForgeError::RenderFailed { path, cause }) ==> path@ == input@,
        r matches Err(e) ==> e is RenderFailed,
{
    if exit_success {
        Ok(())
    } else {
        Err(
            ForgeError::RenderFailed {
                path: input.to_owned(),
                cause: "the engine exited with a failure status".to_string(),
            },
        )
    }
}

} // verus!
