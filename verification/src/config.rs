//! The run configuration, as plain data.
//!
//! Command-line parsing is left to the embedding program, which fills these
//! types from the arguments it reads.

use vstd::prelude::*;

pub use new::New;

pub mod new;

verus! {

/// Everything a run is given on the command line.
pub struct Config {
    pub verbose: bool,
    pub command: Commands,
}

/// The subcommands a run can perform, each with its own arguments.
pub enum Commands {
    /// Create a new workspace.
    New(New),
}

} // verus!
