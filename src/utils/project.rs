//! The hook stages, as the steps that run them.
pub use crate::project::{exec_predeploy_scripts, exec_postdeploy_scripts};
