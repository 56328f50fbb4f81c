//! The command surface as plain data. The unverified command-line shell
//! parses user input into its own mirror of these types and converts; the
//! lifecycle operations they select live in `workspace_handler`.

use vstd::prelude::*;

pub mod branches;
pub mod value;

use branches::BranchComand;

verus! {

/// A full invocation: one action, plus the global force flag.
#[derive(Debug)]
pub struct CliArgs {
    pub action_context: ActionContext,
    pub force: bool,
}

/// Initialize a new workspace, optionally inside a named sub-folder of the
/// current directory.
#[derive(Debug)]
pub struct InitCommand {
    pub folder_name: Option<String>,
}

/// Restore a snapshot of the active branch into the working directory; with
/// no explicit version the branch's own version field is used.
#[derive(Debug)]
pub struct RestoreBranch {
    pub version: Option<i32>,
    pub file: Option<String>,
}

/// The top-level actions a caller can request.
#[derive(Debug)]
pub enum ActionContext {
    /// Initialize a new workspace in the current directory.
    Init(InitCommand),
    /// Manage branches: switch, create, delete, list.
    Branch(BranchComand),
    /// Save the working directory to the current branch as a new version.
    Save,
    /// Copy a saved version back into the working directory.
    Restore(RestoreBranch),
}

} // verus!
