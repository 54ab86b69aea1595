//! The ways an operation of the tool can fail.
use vstd::prelude::*;

verus! {

/// Why an operation failed. Every failure aborts the whole operation.
#[derive(Debug, Clone, PartialEq, Eq)]
pub enum ForgeError {
    /// A template root, template or plugin is missing; names what.
    NotFound(String),
    /// A read, write or directory walk failed; says which.
    Io(String),
    /// A required runtime could not be probed successfully; names it.
    RuntimeUnavailable(String),
    /// Rendering a file failed.
    RenderFailed { path: String, cause: String },
    /// A plugin descriptor is malformed; says how.
    InvalidDescriptor(String),
    /// A project manifest exists already and overwriting was not asked for.
    ManifestExists(String),
}

} // verus!
