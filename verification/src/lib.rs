//! Building and publishing the internal documentation of `rustc`.
//!
//! The library holds the decisions of the tool: which commands run, in
//! which order, how the configuration is set up, and how failures are
//! chained and reported. Everything that touches the file system, the
//! clock or other processes is described as an action that the caller
//! performs and answers.

pub mod config;
pub mod text;
pub mod errors;
pub mod helpers;
pub mod logging;
pub mod steps;
pub mod pattern;
pub mod workflow;

pub use config::{Config, ErrorHandling, Stages};
pub use workflow::{
    edit_rustbuild_config, generate_docs, run, setup_rustbuild_config_file, update_rust_repo,
    upload_docs, RunStep, Stage, RUST_GITHUB_REPO,
};
