//! Composition engine for new-project scaffolding: a catalog of templates,
//! the conditional file-name grammar, manifest parsing, ordered placeholder
//! substitution and the planning of every write that a render performs.

pub mod conditional;
pub mod manifest;
pub mod package_manager;
pub mod render;
pub mod template;
pub mod text;
pub mod tree;
