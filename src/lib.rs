//! Template rendering core of a project-scaffolding tool.
//!
//! The library decides: which plugin a project has, which runtimes a
//! template tree needs, how each file is rendered and where it is written.
//! The program around it reads and writes files and starts processes.
pub mod error;
pub mod init;
pub mod listing;
pub mod path;
pub mod pipeline;
pub mod plugin;
pub mod render;
pub mod runtime;
pub mod substitute;
pub mod text;
