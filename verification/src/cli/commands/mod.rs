//! The individual commands.

pub mod add;
pub mod deploy;
pub mod diff_impact;
pub mod explain;
pub mod new;
pub mod spec_sync;
