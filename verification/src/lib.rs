//! Verified core logic of the Rotiv framework tooling: route discovery and
//! matching, naming conventions, static analysis of project files, module
//! capability resolution and the planning steps of the command-line interface.

pub mod text;
pub mod json;
pub mod chars;
pub mod error;
pub mod sorting;
pub mod paths;
pub mod calendar;
pub mod router;
pub mod analysis;
pub mod modules;
pub mod models;
pub mod locate;
pub mod project;
pub mod orm;
pub mod compiler;
pub mod proxy;
pub mod worker;
pub mod server;
pub mod watcher;
pub mod cli;
