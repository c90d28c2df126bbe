//! Command-line logic of the `weaver` binary: argument parsing, error
//! taxonomy and rendering decisions.

pub mod args;
pub mod config;
pub mod edit;
pub mod errors;
pub mod exit_code;
pub mod inspect;
pub mod output;
pub mod save;
pub mod version;
