//! The in-memory branch registry: an ordered list of branch records with a
//! name-uniqueness invariant, plus the workspace metadata it travels with.

use vstd::prelude::*;

use crate::file_handler::str_eq;
use crate::models::branch::Branch;
use crate::models::mod_info::ModInfo;

verus! {

/// The error kinds of registry and lifecycle operations.
#[derive(Debug)]
pub enum WorkspaceError {
    /// No branch of the given name is registered.
    BranchNotFound(String),
    /// A branch of the given name is already registered.
    DuplicateBranch(String),
    /// The given name is the active branch, which cannot be deleted.
    CannotDeleteActiveBranch(String),
    /// The operation needs an active branch and none is selected.
    NoActiveBranch,
}

/// The top-level failure of one command, as the command shell reports it:
/// a bare message, or a workspace error passed through.
#[derive(Debug)]
pub enum ExecError {
    Error(String),
    Workspace(WorkspaceError),
}

/// Whether `r` is the branch-not-found error for `name`.
pub open spec fn err_is_branch_not_found<T>(r: Result<T, WorkspaceError>, name: Seq<char>) -> bool {
    match r {
        Result::Err(WorkspaceError::BranchNotFound(n)) => n@ == name,
        _ => false,
    }
}

/// Whether `r` is the duplicate-branch error for `name`.
pub open spec fn err_is_duplicate<T>(r: Result<T, WorkspaceError>, name: Seq<char>) -> bool {
    match r {
        Result::Err(WorkspaceError::DuplicateBranch(n)) => n@ == name,
        _ => false,
    }
}

/// Whether `r` is the cannot-delete-active-branch error for `name`.
pub open spec fn err_is_cannot_delete_active<T>(
    r: Result<T, WorkspaceError>,
    name: Seq<char>,
) -> bool {
    match r {
        Result::Err(WorkspaceError::CannotDeleteActiveBranch(n)) => n@ == name,
        _ => false,
    }
}

/// Whether `r` is the no-active-branch error.
pub open spec fn err_is_no_active<T>(r: Result<T, WorkspaceError>) -> bool {
    match r {
        Result::Err(WorkspaceError::NoActiveBranch) => true,
        _ => false,
    }
}

/// Whether some record of `s` carries `name`.
pub open spec fn has_branch(s: Seq<Branch>, name: Seq<char>) -> bool {
    exists|i: int| 0 <= i < s.len() && (#[trigger] s[i]).name@ == name
}

/// No two records of `s` share a name.
pub open spec fn unique_names(s: Seq<Branch>) -> bool {
    forall|i: int, j: int|
        0 <= i < j < s.len() ==> (#[trigger] s[i]).name@ != (#[trigger] s[j]).name@
}

/// A loaded workspace session: its metadata and its branch registry.
#[derive(Debug)]
pub struct Workspace {
    pub mod_info: ModInfo,
    pub branches: Vec<Branch>,
}

impl Workspace {
    pub fn new(mod_info: ModInfo, branches: Vec<Branch>) -> (r: Workspace)
        ensures
            r.mod_info == mod_info,
            r.branches == branches,
    {
        Workspace { mod_info, branches }
    }

    /// The first record carrying `name`, if any; exact, case-sensitive
    /// match.
    pub fn get_branch(&self, name: &str) -> (r: Option<&Branch>)
        ensures
            (r is None) == !has_branch(self.branches@, name@),
            r matches Some(b) ==> exists|i: int|
                0 <= i < self.branches@.len() && (#[trigger] self.branches@[i]) == *b
                    && self.branches@[i].name@ == name@ && (forall|j: int|
                    0 <= j < i ==> (#[trigger] self.branches@[j]).name@ != name@),
    {
        let n = self.branches.len();
        for i in 0..n
            invariant
                n == self.branches@.len(),
                forall|j: int| 0 <= j < i ==> (#[trigger] self.branches@[j]).name@ != name@,
        {
            if str_eq(self.branches[i].name.as_str(), name) {
                return Some(&self.branches[i]);
            }
        }
        None
    }

    /// Law (uniqueness invariant): adding a name already present always
    /// fails with the duplicate-branch error and never mutates the
    /// registry; adding a fresh name appends the record and keeps the
    /// registry's names unique.
    pub fn add_branch(&mut self, branch: Branch) -> (r: Result<(), WorkspaceError>)
        ensures
            has_branch(old(self).branches@, branch.name@) ==> err_is_duplicate(r, branch.name@)
                && *final(self) == *old(self),
            !has_branch(old(self).branches@, branch.name@) ==> r is Ok && final(self).branches@
                == old(self).branches@.push(branch) && final(self).mod_info == old(self).mod_info,
            unique_names(old(self).branches@) ==> unique_names(final(self).branches@),
    {
        let n = self.branches.len();
        for i in 0..n
            invariant
                n == self.branches@.len(),
                forall|j: int| 0 <= j < i ==> (#[trigger] self.branches@[j]).name@ != branch.name@,
        {
            if str_eq(self.branches[i].name.as_str(), branch.name.as_str()) {
                return Err(WorkspaceError::DuplicateBranch(branch.name));
            }
        }
        self.branches.push(branch);
        Ok(())
    }

    /// Set the version field of the named branch; the only way version
    /// numbers change.
    pub fn change_branch_version(&mut self, branch: &str, version: i32) -> (r: Result<
        (),
        WorkspaceError,
    >)
        ensures
            !has_branch(old(self).branches@, branch@) ==> err_is_branch_not_found(r, branch@)
                && *final(self) == *old(self),
            has_branch(old(self).branches@, branch@) ==> r is Ok && exists|i: int|
                {
                    &&& 0 <= i < old(self).branches@.len()
                    &&& (#[trigger] old(self).branches@[i]).name@ == branch@
                    &&& forall|j: int|
                        0 <= j < i ==> (#[trigger] old(self).branches@[j]).name@ != branch@
                    &&& final(self).branches@.len() == old(self).branches@.len()
                    &&& final(self).branches@[i].name == old(self).branches@[i].name
                    &&& final(self).branches@[i].version == version
                    &&& forall|j: int|
                        0 <= j < old(self).branches@.len() && j != i ==> final(self).branches@[j]
                            == (#[trigger] old(self).branches@[j])
                },
            final(self).mod_info == old(self).mod_info,
            unique_names(old(self).branches@) ==> unique_names(final(self).branches@),
    {
        let n = self.branches.len();
        for i in 0..n
            invariant
                n == self.branches@.len(),
                *self == *old(self),
                forall|j: int| 0 <= j < i ==> (#[trigger] self.branches@[j]).name@ != branch@,
        {
            if str_eq(self.branches[i].name.as_str(), branch) {
                let b = self.branches.remove(i);
                let renewed = Branch { name: b.name, version };
                self.branches.insert(i, renewed);
                proof {
                    assert(final(self).branches@ =~= old(self).branches@.update(
                        i as int,
                        renewed,
                    ));
                    if unique_names(old(self).branches@) {
                        assert forall|i1: int, i2: int|
                            0 <= i1 < i2 < self.branches@.len() implies (
                        #[trigger] self.branches@[i1]).name@ != (
                        #[trigger] self.branches@[i2]).name@ by {
                            assert(self.branches@[i1].name == old(self).branches@[i1].name);
                            assert(self.branches@[i2].name == old(self).branches@[i2].name);
                            assert(old(self).branches@[i1].name@ != old(
                                self,
                            ).branches@[i2].name@);
                        }
                    }
                }
                return Ok(());
            }
        }
        Err(WorkspaceError::BranchNotFound(branch.to_owned()))
    }
}

} // verus!
