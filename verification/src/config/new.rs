//! Arguments of the subcommand that creates a new workspace.

use vstd::prelude::*;

verus! {

/// What the subcommand needs: the project's name, and the directory to
/// create the workspace in when it should differ from the project's name.
pub struct New {
    pub project_name: String,
    pub directory_name: Option<String>,
}

} // verus!
