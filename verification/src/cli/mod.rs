//! The command-line interface: its commands and their planning logic. The
//! commands' file and process work is done by the front end, which hands the
//! results to the functions here.

pub mod args;
pub mod commands;
pub mod error;
pub mod naming;
