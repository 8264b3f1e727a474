//! Project metadata: ini lookups, registry, templates and generated files.
pub mod editor;
pub mod env;
pub mod lifecycle;
pub mod registry;
pub mod templates;
pub mod trust;
pub mod types;
pub mod workspace;
pub mod claude_md;
pub mod paths;
