//! The external platform tool, and the flat dependency listing of a
//! manifest.
pub mod project;
pub mod project_config;
pub mod sf;
