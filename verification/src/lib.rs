//! The decisions behind Launch Director: which `mise` tasks a project offers, which of them build
//! and run it, when a build window opens, what it shows and how a launch ends.

pub mod build_watch;
pub mod build_window;
pub mod command;
pub mod discovery;
pub mod encoding;
pub mod error;
pub mod json;
pub mod launch;
pub mod names;
pub mod project;
pub mod reports;
pub mod resolve;
pub mod run_watch;
pub mod text;
