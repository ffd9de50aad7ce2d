//! Release tooling for multi-package platform projects: semantic versions,
//! the project manifest model, dependency resolution, the verify pipeline
//! and the version-bump workflow.
pub mod error;
pub mod json;
pub mod manifest;
pub mod text;
pub mod commands;
pub mod project;
pub mod utils;
pub mod version_text;
pub mod project_config;
