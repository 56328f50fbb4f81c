use vstd::prelude::*;

use super::value::Value;

verus! {

/// A branch management request: one of the actions below.
#[derive(Debug)]
pub struct BranchComand {
    pub action: BranchAction,
}

/// Switch the working directory to the named branch's latest snapshot.
#[derive(Debug)]
pub struct SwitchBranch {
    pub branch: String,
}

/// Create a branch, optionally swapping to it at once, and optionally saving
/// a first version right after the swap.
#[derive(Debug)]
pub struct CreateBranch {
    pub branch: String,
    pub swap: bool,
    pub save: bool,
}

/// The branch management actions.
#[derive(Debug)]
pub enum BranchAction {
    /// Switch to a different branch.
    Switch(SwitchBranch),
    /// Create a new branch.
    Create(CreateBranch),
    /// Delete the named branch (never the active one).
    Delete(Value),
    /// List the registered branches.
    List,
}

} // verus!
