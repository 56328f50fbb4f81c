//! The snapshot lifecycle: a workspace session owning the root path, the
//! metadata and the branch registry, with the save / switch / restore /
//! create / delete transitions. Everything here is a pure state machine:
//! the unverified shell asks it what to do, performs the file-system work,
//! and hands back the one outside fact a transition depends on (whether a
//! snapshot directory exists on disk).

use vstd::prelude::*;

use crate::branch::Branch;
use crate::file_handler::RelPath;
use crate::file_handler::str_ends_with;
use crate::file_handler::str_eq;
use crate::file_handler::ends_with_spec;
use crate::workspace::WorkspaceError;
use crate::workspace::err_is_branch_not_found;
use crate::workspace::err_is_duplicate;
use crate::workspace::err_is_cannot_delete_active;
use crate::workspace::err_is_no_active;
use crate::mod_info::ModInfo;

verus! {

/// Outcome of a switch: the snapshot was loaded, the target was already
/// active (a no-op), or the target has no snapshot yet and the working
/// directory is left untouched.
#[derive(Debug, PartialEq, Eq)]
pub enum SwitchResult {
    Success,
    AlreadtInBranch,
    NoFileMove,
}

/// What a restore must do to the working directory: load the resolved
/// version, or clear it when that version has no snapshot on disk.
#[derive(Debug, PartialEq, Eq)]
pub enum RestoreAction {
    CopyVersion(i32),
    ClearWorking,
}

/// Whether some record of `s` carries `name`.
pub open spec fn has_branch(s: Seq<Branch>, name: Seq<char>) -> bool {
    exists|i: int| 0 <= i < s.len() && (#[trigger] s[i]).name@ == name
}

/// No two records of `s` share a name.
pub open spec fn unique_names(s: Seq<Branch>) -> bool {
    forall|i: int, j: int|
        0 <= i < j < s.len() ==> (#[trigger] s[i]).name@ != (#[trigger] s[j]).name@
}

/// The records of `s` whose name is not `name`, in order.
pub open spec fn remove_named(s: Seq<Branch>, name: Seq<char>) -> Seq<Branch>
    decreases s.len(),
{
    if s.len() == 0 {
        Seq::empty()
    } else {
        (if s[0].name@ != name {
            seq![s[0]]
        } else {
            Seq::empty()
        }) + remove_named(s.drop_first(), name)
    }
}

proof fn lemma_remove_named_mem(s: Seq<Branch>, name: Seq<char>, k: int)
    requires
        0 <= k < remove_named(s, name).len(),
    ensures
        exists|j: int| 0 <= j < s.len() && remove_named(s, name)[k] == (#[trigger] s[j]),
    decreases s.len(),
{
    let r = remove_named(s, name);
    if s[0].name@ != name {
        if k == 0 {
            assert(r[0] == s[0]);
        } else {
            lemma_remove_named_mem(s.drop_first(), name, k - 1);
            let j = choose|j: int|
                0 <= j < s.drop_first().len() && remove_named(s.drop_first(), name)[k - 1] == (
                #[trigger] s.drop_first()[j]);
            assert(r[k] == s[j + 1]);
        }
    } else {
        lemma_remove_named_mem(s.drop_first(), name, k);
        let j = choose|j: int|
            0 <= j < s.drop_first().len() && remove_named(s.drop_first(), name)[k] == (
            #[trigger] s.drop_first()[j]);
        assert(r[k] == s[j + 1]);
    }
}

/// Removing all records of one name from a registry with pairwise distinct
/// names leaves the names pairwise distinct.
proof fn lemma_remove_named_unique(s: Seq<Branch>, name: Seq<char>)
    requires
        unique_names(s),
    ensures
        unique_names(remove_named(s, name)),
    decreases s.len(), 1int,
{
    if s.len() == 0 {
        assert(remove_named(s, name) =~= Seq::<Branch>::empty());
    } else {
        lemma_remove_named_unique_step(s, name);
    }
}

proof fn lemma_remove_named_unique_step(s: Seq<Branch>, name: Seq<char>)
    requires
        unique_names(s),
        s.len() > 0,
    ensures
        unique_names(remove_named(s, name)),
    decreases s.len(), 0int,
{
    let rest = s.drop_first();
    assert forall|i: int, j: int| 0 <= i < j < rest.len() implies (#[trigger] rest[i]).name@ != (
    #[trigger] rest[j]).name@ by {
        assert(rest[i] == s[i + 1] && rest[j] == s[j + 1]);
    }
    lemma_remove_named_unique(rest, name);
    let r = remove_named(s, name);
    let rr = remove_named(rest, name);
    if s[0].name@ != name {
        assert forall|i: int, j: int| 0 <= i < j < r.len() implies (#[trigger] r[i]).name@ != (
        #[trigger] r[j]).name@ by {
            if i == 0 {
                lemma_remove_named_mem(rest, name, j - 1);
                let w = choose|w: int| 0 <= w < rest.len() && rr[j - 1] == (#[trigger] rest[w]);
                assert(r[j] == s[w + 1]);
                assert(r[0] == s[0]);
            } else {
                assert(r[i] == rr[i - 1] && r[j] == rr[j - 1]);
            }
        }
    } else {
        assert(r =~= rr);
    }
}

/// A workspace session: root path, metadata, branch registry, and the raw
/// ignore patterns it was loaded with.
#[derive(Debug)]
pub struct Workspace {
    pub root_folder: String,
    pub info: ModInfo,
    pub branches: Vec<Branch>,
    pub ignore_files_pattern: Vec<String>,
}

impl Workspace {
    /// Whether `name` is the active branch.
    pub open spec fn active_is(self, name: Seq<char>) -> bool {
        match self.info.current_branch {
            Option::Some(c) => c@ == name,
            Option::None => false,
        }
    }

    /// Whether any branch is active.
    pub open spec fn has_active(self) -> bool {
        self.info.current_branch is Some
    }

    /// Every version field is non-negative: the registry invariant stated
    /// over versions. Versions start at 0 and only ever grow by one.
    pub open spec fn versions_nonneg(self) -> bool {
        forall|i: int|
            0 <= i < self.branches@.len() ==> (#[trigger] self.branches@[i]).version >= 0
    }

    /// Every record named like the active branch has room for one more
    /// version; what a save needs to not overflow the version counter.
    pub open spec fn can_bump_active(self) -> bool {
        match self.info.current_branch {
            Option::Some(c) => forall|i: int|
                0 <= i < self.branches@.len() && (#[trigger] self.branches@[i]).name@ == c@
                    ==> self.branches@[i].version < i32::MAX,
            Option::None => true,
        }
    }

    /// The metadata of `a` equals that of `b` apart from the active-branch
    /// field.
    pub open spec fn same_info_but_current(a: ModInfo, b: ModInfo) -> bool {
        &&& a.name == b.name
        &&& a.author == b.author
        &&& a.description == b.description
        &&& a.top_files_only == b.top_files_only
        &&& a.file_type == b.file_type
    }

    /// Root path and ignore patterns of `a` equal those of `b`.
    pub open spec fn same_shell(a: Workspace, b: Workspace) -> bool {
        a.root_folder == b.root_folder && a.ignore_files_pattern == b.ignore_files_pattern
    }

    pub fn new(
        root_folder: String,
        info: ModInfo,
        branches: Vec<Branch>,
        ignore_files_pattern: Vec<String>,
    ) -> (r: Workspace)
        ensures
            r.root_folder == root_folder,
            r.info == info,
            r.branches == branches,
            r.ignore_files_pattern == ignore_files_pattern,
    {
        Workspace { root_folder, info, branches, ignore_files_pattern }
    }

    /// A fresh workspace: the given metadata, one branch `main` with no
    /// snapshot written yet, and no ignore patterns. The shell creates the
    /// directory layout around it.
    pub fn init(root_folder: String, info: ModInfo) -> (r: Workspace)
        ensures
            r.root_folder == root_folder,
            r.info == info,
            r.branches@.len() == 1,
            r.branches@[0].name@ == "main"@,
            r.branches@[0].description@ == "Main branch"@,
            r.branches@[0].version == 0,
            r.ignore_files_pattern@.len() == 0,
    {
        let mut branches: Vec<Branch> = Vec::new();
        branches.push(Branch::new("main".to_owned(), "Main branch".to_owned(), 0));
        Workspace::new(root_folder, info, branches, Vec::new())
    }

    /// The working directory.
    pub fn src_folder_path(&self) -> (r: String)
        ensures
            r@ == self.root_folder@ + "/src"@,
    {
        let mut s = self.root_folder.clone();
        s.append("/src");
        s
    }

    /// The metadata file.
    pub fn info_path(&self) -> (r: String)
        ensures
            r@ == self.root_folder@ + "/.info"@,
    {
        let mut s = self.root_folder.clone();
        s.append("/.info");
        s
    }

    /// The directory holding one sub-directory per branch.
    pub fn branches_folder_path(&self) -> (r: String)
        ensures
            r@ == self.root_folder@ + "/branches"@,
    {
        let mut s = self.root_folder.clone();
        s.append("/branches");
        s
    }

    /// The registry file.
    pub fn branches_path(&self) -> (r: String)
        ensures
            r@ == self.root_folder@ + "/branches/.branches"@,
    {
        let mut s = self.root_folder.clone();
        s.append("/branches/.branches");
        s
    }

    /// The active branch's directory; an error when no branch is active.
    pub fn current_branch_folder_path(&self) -> (r: Result<String, WorkspaceError>)
        ensures
            !self.has_active() ==> err_is_no_active(r),
            self.info.current_branch matches Some(c) ==> r matches Ok(p) && p@ == self.root_folder@
                + "/branches/"@ + c@,
    {
        match &self.info.current_branch {
            Option::None => Err(WorkspaceError::NoActiveBranch),
            Option::Some(c) => {
                let mut s = self.root_folder.clone();
                s.append("/branches/");
                s.append(c.as_str());
                Ok(s)
            },
        }
    }

    /// The directory of one version snapshot:
    /// `<root>/branches/<branch>/<version>`.
    pub fn version_folder_path(&self, branch: &str, version: i32) -> (r: String)
        requires
            version >= 0,
        ensures
            r@ == self.root_folder@ + "/branches/"@ + branch@ + "/"@ + crate::file_handler::dec_digits(
                version as nat,
            ),
    {
        let mut s = self.root_folder.clone();
        s.append("/branches/");
        s.append(branch);
        s.append("/");
        s.append(crate::file_handler::u32_to_dec_string(version as u32).as_str());
        s
    }

    /// The two files a persist must write: the metadata file and the
    /// registry file.
    pub fn save(&self) -> (r: (String, String))
        ensures
            r.0@ == self.root_folder@ + "/.info"@,
            r.1@ == self.root_folder@ + "/branches/.branches"@,
    {
        (self.info_path(), self.branches_path())
    }

    /// The latest completed version of the named branch: its version field
    /// less one. Negative when the branch has no completed snapshot yet.
    pub fn latest_version(&self, name: &str) -> (r: Option<i32>)
        requires
            self.versions_nonneg(),
        ensures
            (r is None) == !has_branch(self.branches@, name@),
            r matches Some(v) ==> exists|i: int|
                {
                    &&& 0 <= i < self.branches@.len()
                    &&& (#[trigger] self.branches@[i]).name@ == name@
                    &&& forall|j: int|
                        0 <= j < i ==> (#[trigger] self.branches@[j]).name@ != name@
                    &&& v == self.branches@[i].version - 1
                },
    {
        let n = self.branches.len();
        for i in 0..n
            invariant
                n == self.branches@.len(),
                self.versions_nonneg(),
                forall|j: int| 0 <= j < i ==> (#[trigger] self.branches@[j]).name@ != name@,
        {
            if str_eq(self.branches[i].name.as_str(), name) {
                return Some(self.branches[i].version - 1);
            }
        }
        None
    }

    /// Law (uniqueness invariant): adding a name already present always
    /// fails with the duplicate-branch error and never mutates the
    /// registry; adding a fresh name appends the record and keeps the
    /// registry's names unique.
    pub fn add_branch(&mut self, branch: Branch) -> (r: Result<(), WorkspaceError>)
        ensures
            has_branch(old(self).branches@, branch.name@) ==> err_is_duplicate(r, branch.name@)
                && *final(self) == *old(self),
            !has_branch(old(self).branches@, branch.name@) ==> r is Ok && final(self).branches@
                == old(self).branches@.push(branch) && final(self).info == old(self).info
                && Workspace::same_shell(*final(self), *old(self)),
            unique_names(old(self).branches@) ==> unique_names(final(self).branches@),
    {
        let n = self.branches.len();
        for i in 0..n
            invariant
                n == self.branches@.len(),
                *self == *old(self),
                forall|j: int| 0 <= j < i ==> (#[trigger] self.branches@[j]).name@ != branch.name@,
        {
            if str_eq(self.branches[i].name.as_str(), branch.name.as_str()) {
                return Err(WorkspaceError::DuplicateBranch(branch.name));
            }
        }
        self.branches.push(branch);
        Ok(())
    }

    /// Law (idempotent switch): switching to the already-active branch is a
    /// no-op that reports it; the session is left exactly as it was.
    ///
    /// Otherwise the target must exist in the registry; the active branch
    /// becomes the target either way, and the result tells the shell
    /// whether to clear the working directory and load the snapshot
    /// (`Success`) or to leave the working directory untouched because the
    /// target has no snapshot on disk (`NoFileMove`). `snapshot_exists` is
    /// the outside fact whether `branches/<name>/<latest>/` exists, with
    /// `latest` as `latest_version` gives it.
    pub fn switch_branch(&mut self, name: &str, snapshot_exists: bool) -> (r: Result<
        SwitchResult,
        WorkspaceError,
    >)
        ensures
            old(self).active_is(name@) ==> r == Ok::<SwitchResult, WorkspaceError>(SwitchResult::AlreadtInBranch) && *final(self)
                == *old(self),
            !old(self).active_is(name@) && !has_branch(old(self).branches@, name@)
                ==> err_is_branch_not_found(r, name@) && *final(self) == *old(self),
            !old(self).active_is(name@) && has_branch(old(self).branches@, name@) ==> {
                &&& r == Ok::<SwitchResult, WorkspaceError>(
                    if snapshot_exists {
                        SwitchResult::Success
                    } else {
                        SwitchResult::NoFileMove
                    },
                )
                &&& final(self).active_is(name@)
                &&& Workspace::same_info_but_current(final(self).info, old(self).info)
                &&& final(self).branches == old(self).branches
                &&& Workspace::same_shell(*final(self), *old(self))
            },
    {
        let already = match &self.info.current_branch {
            Option::Some(c) => str_eq(c.as_str(), name),
            Option::None => false,
        };
        if already {
            return Ok(SwitchResult::AlreadtInBranch);
        }
        let n = self.branches.len();
        let mut found = false;
        for i in 0..n
            invariant
                n == self.branches@.len(),
                *self == *old(self),
                !found ==> forall|j: int|
                    0 <= j < i ==> (#[trigger] self.branches@[j]).name@ != name@,
                found ==> has_branch(self.branches@, name@),
        {
            if str_eq(self.branches[i].name.as_str(), name) {
                found = true;
            }
        }
        if !found {
            return Err(WorkspaceError::BranchNotFound(name.to_owned()));
        }
        self.info.current_branch = Some(name.to_owned());
        if snapshot_exists {
            Ok(SwitchResult::Success)
        } else {
            Ok(SwitchResult::NoFileMove)
        }
    }

    /// Save the working directory as the active branch's next version: the
    /// returned number is the version directory the shell must now fill
    /// (`branches/<active>/<returned>/`), and the branch's version field
    /// moves past it, so the next save targets the number after.
    pub fn save_current_state(&mut self) -> (r: Result<i32, WorkspaceError>)
        requires
            old(self).can_bump_active(),
        ensures
            !old(self).has_active() ==> err_is_no_active(r) && *final(self) == *old(self),
            old(self).info.current_branch matches Some(c) ==> (!has_branch(
                old(self).branches@,
                c@,
            ) ==> err_is_branch_not_found(r, c@) && *final(self) == *old(self)),
            old(self).info.current_branch matches Some(c) ==> (has_branch(old(self).branches@, c@)
                ==> exists|i: int|
                {
                    &&& 0 <= i < old(self).branches@.len()
                    &&& (#[trigger] old(self).branches@[i]).name@ == c@
                    &&& forall|j: int|
                        0 <= j < i ==> (#[trigger] old(self).branches@[j]).name@ != c@
                    &&& r == Ok::<i32, WorkspaceError>(old(self).branches@[i].version)
                    &&& final(self).branches@.len() == old(self).branches@.len()
                    &&& final(self).branches@[i].name == old(self).branches@[i].name
                    &&& final(self).branches@[i].description == old(self).branches@[i].description
                    &&& final(self).branches@[i].version == old(self).branches@[i].version + 1
                    &&& forall|j: int|
                        0 <= j < old(self).branches@.len() && j != i ==> final(self).branches@[j]
                            == (#[trigger] old(self).branches@[j])
                    &&& final(self).info == old(self).info
                    &&& Workspace::same_shell(*final(self), *old(self))
                }),
            unique_names(old(self).branches@) ==> unique_names(final(self).branches@),
    {
        let cur: String = match &self.info.current_branch {
            Option::None => {
                return Err(WorkspaceError::NoActiveBranch);
            },
            Option::Some(c) => c.clone(),
        };
        let n = self.branches.len();
        for i in 0..n
            invariant
                n == self.branches@.len(),
                *self == *old(self),
                old(self).info.current_branch matches Some(c) && cur == c,
                old(self).can_bump_active(),
                forall|j: int| 0 <= j < i ==> (#[trigger] self.branches@[j]).name@ != cur@,
        {
            if str_eq(self.branches[i].name.as_str(), cur.as_str()) {
                let b = self.branches.remove(i);
                let v = b.version;
                let renewed = Branch { name: b.name, description: b.description, version: v + 1 };
                self.branches.insert(i, renewed);
                proof {
                    assert(final(self).branches@ =~= old(self).branches@.update(i as int, renewed));
                    if unique_names(old(self).branches@) {
                        assert forall|i1: int, i2: int|
                            0 <= i1 < i2 < self.branches@.len() implies (
                        #[trigger] self.branches@[i1]).name@ != (
                        #[trigger] self.branches@[i2]).name@ by {
                            assert(self.branches@[i1].name == old(self).branches@[i1].name);
                            assert(self.branches@[i2].name == old(self).branches@[i2].name);
                            assert(old(self).branches@[i1].name@ != old(
                                self,
                            ).branches@[i2].name@);
                        }
                    }
                }
                return Ok(v);
            }
        }
        Err(WorkspaceError::BranchNotFound(cur))
    }

    /// Law (active-branch delete guard): removing the active branch always
    /// fails with the cannot-delete error and changes nothing, so its
    /// on-disk snapshots survive. Otherwise the named records leave the
    /// registry (the shell then deletes `branches/<name>/`), and the
    /// active-branch selection stays as it was.
    pub fn remove_branch_by_name(&mut self, name: &str) -> (r: Result<(), WorkspaceError>)
        ensures
            old(self).active_is(name@) ==> err_is_cannot_delete_active(r, name@) && *final(self)
                == *old(self),
            !old(self).active_is(name@) && !has_branch(old(self).branches@, name@)
                ==> err_is_branch_not_found(r, name@) && *final(self) == *old(self),
            !old(self).active_is(name@) && has_branch(old(self).branches@, name@) ==> {
                &&& r is Ok
                &&& final(self).branches@ == remove_named(old(self).branches@, name@)
                &&& final(self).info == old(self).info
                &&& Workspace::same_shell(*final(self), *old(self))
            },
            unique_names(old(self).branches@) ==> unique_names(final(self).branches@),
    {
        let active = match &self.info.current_branch {
            Option::Some(c) => str_eq(c.as_str(), name),
            Option::None => false,
        };
        if active {
            return Err(WorkspaceError::CannotDeleteActiveBranch(name.to_owned()));
        }
        let n = self.branches.len();
        let mut found = false;
        for i in 0..n
            invariant
                n == self.branches@.len(),
                *self == *old(self),
                !found ==> forall|j: int|
                    0 <= j < i ==> (#[trigger] self.branches@[j]).name@ != name@,
                found ==> has_branch(self.branches@, name@),
        {
            if str_eq(self.branches[i].name.as_str(), name) {
                found = true;
            }
        }
        if !found {
            return Err(WorkspaceError::BranchNotFound(name.to_owned()));
        }
        let ghost orig = self.branches@;
        proof {
            assert(self.branches@.skip(0) =~= self.branches@);
            assert(self.branches@.take(0) =~= Seq::<Branch>::empty());
            assert(remove_named(orig, name@) =~= self.branches@.take(0) + remove_named(
                self.branches@.skip(0),
                name@,
            ));
        }
        let mut i: usize = 0;
        while i < self.branches.len()
            invariant
                i <= self.branches@.len(),
                self.info == old(self).info,
                self.root_folder == old(self).root_folder,
                self.ignore_files_pattern == old(self).ignore_files_pattern,
                remove_named(orig, name@) =~= self.branches@.take(i as int) + remove_named(
                    self.branches@.skip(i as int),
                    name@,
                ),
                forall|j: int| 0 <= j < i ==> (#[trigger] self.branches@[j]).name@ != name@,
            decreases self.branches@.len() - i,
        {
            let ghost pre = self.branches@;
            if str_eq(self.branches[i].name.as_str(), name) {
                self.branches.remove(i);
                proof {
                    assert(self.branches@ =~= pre.remove(i as int));
                    assert(self.branches@.take(i as int) =~= pre.take(i as int));
                    assert(self.branches@.skip(i as int) =~= pre.skip(i as int).drop_first());
                    assert(pre.skip(i as int)[0] == pre[i as int]);
                    assert(remove_named(pre.skip(i as int), name@) =~= remove_named(
                        self.branches@.skip(i as int),
                        name@,
                    ));
                }
            } else {
                i = i + 1;
                proof {
                    assert(pre.skip(i - 1)[0] == pre[i - 1]);
                    assert(pre.skip(i - 1).drop_first() =~= pre.skip(i as int));
                    assert(pre.take(i as int) =~= pre.take(i - 1).push(pre[i - 1]));
                    assert(remove_named(pre.skip(i - 1), name@) =~= seq![pre[i - 1]]
                        + remove_named(pre.skip(i as int), name@));
                    assert(pre.take(i as int) + remove_named(pre.skip(i as int), name@) =~= pre.take(
                        i - 1,
                    ) + remove_named(pre.skip(i - 1), name@));
                }
            }
        }
        proof {
            assert(self.branches@.skip(self.branches@.len() as int)
                =~= Seq::<Branch>::empty());
            assert(self.branches@.take(self.branches@.len() as int) =~= self.branches@);
            assert(final(self).branches@ =~= remove_named(orig, name@));
            if unique_names(orig) {
                lemma_remove_named_unique(orig, name@);
            }
        }
        Ok(())
    }

    /// Create a branch (version 0), optionally swap to it at once, and
    /// optionally save a first version right after the swap. A new branch
    /// has no snapshot, so the swap never loads one and the working
    /// directory keeps its content; a requested save then writes it as
    /// `branches/<name>/0/`, which is what the returned version number
    /// reports.
    pub fn branch_create(
        &mut self,
        name: &str,
        description: &str,
        swap: bool,
        save_after: bool,
    ) -> (r: Result<Option<i32>, WorkspaceError>)
        ensures
            has_branch(old(self).branches@, name@) ==> err_is_duplicate(r, name@) && *final(self)
                == *old(self),
            !has_branch(old(self).branches@, name@) ==> {
                &&& r == Ok::<Option<i32>, WorkspaceError>(
                    if swap && save_after {
                        Some(0i32)
                    } else {
                        None::<i32>
                    },
                )
                &&& final(self).branches@.len() == old(self).branches@.len() + 1
                &&& forall|j: int|
                    0 <= j < old(self).branches@.len() ==> final(self).branches@[j] == (
                    #[trigger] old(self).branches@[j])
                &&& final(self).branches@.last().name@ == name@
                &&& final(self).branches@.last().description@ == description@
                &&& final(self).branches@.last().version == (
                if swap && save_after {
                    1i32
                } else {
                    0i32
                })
                &&& (swap ==> final(self).active_is(name@))
                &&& (!swap ==> final(self).info.current_branch == old(
                    self,
                ).info.current_branch)
                &&& Workspace::same_info_but_current(final(self).info, old(self).info)
                &&& Workspace::same_shell(*final(self), *old(self))
            },
            unique_names(old(self).branches@) ==> unique_names(final(self).branches@),
    {
        let branch = Branch::new(name.to_owned(), description.to_owned(), 0);
        match self.add_branch(branch) {
            Err(e) => {
                return Err(e);
            },
            Ok(()) => {},
        }
        if !swap {
            return Ok(None);
        }
        let ghost after_add = *self;
        proof {
            assert(self.branches@.last() == branch);
            assert(self.branches@[self.branches@.len() - 1].name@ == name@);
            assert(has_branch(self.branches@, name@));
        }
        let switched = self.switch_branch(name, false);
        proof {
            assert(!(switched matches Err(_)));
        }
        if !save_after {
            return Ok(None);
        }
        let ghost after_switch = *self;
        proof {
            assert(self.active_is(name@));
            assert(self.branches@.last().name@ == name@);
            assert forall|i: int|
                0 <= i < self.branches@.len() && (#[trigger] self.branches@[i]).name@
                    == name@ implies self.branches@[i].version < i32::MAX by {
                if i < self.branches@.len() - 1 {
                    assert(old(self).branches@[i].name@ == name@);
                    assert(has_branch(old(self).branches@, name@));
                } else {
                    assert(self.branches@[i].version == 0);
                }
            }
            assert(self.can_bump_active());
        }
        let saved = self.save_current_state();
        proof {
            let c = after_switch.info.current_branch.unwrap();
            assert(c@ == name@);
            assert(after_switch.branches@.last().name@ == name@);
            assert(has_branch(after_switch.branches@, c@));
            let i = choose|i: int|
                {
                    &&& 0 <= i < after_switch.branches@.len()
                    &&& (#[trigger] after_switch.branches@[i]).name@ == c@
                    &&& forall|j: int|
                        0 <= j < i ==> (#[trigger] after_switch.branches@[j]).name@ != c@
                    &&& saved == Ok::<i32, WorkspaceError>(after_switch.branches@[i].version)
                    &&& self.branches@.len() == after_switch.branches@.len()
                    &&& self.branches@[i].name == after_switch.branches@[i].name
                    &&& self.branches@[i].description == after_switch.branches@[i].description
                    &&& self.branches@[i].version == after_switch.branches@[i].version + 1
                    &&& forall|j: int|
                        0 <= j < after_switch.branches@.len() && j != i ==> self.branches@[j]
                            == (#[trigger] after_switch.branches@[j])
                };
            // The added branch is the only record with this name, so the
            // save bumped the last record, from version 0.
            if i < after_switch.branches@.len() - 1 {
                assert(after_switch.branches@[i].name@ == name@);
                assert(old(self).branches@[i].name@ == name@);
                assert(has_branch(old(self).branches@, name@));
                assert(false);
            }
            assert(i == after_switch.branches@.len() - 1);
            assert(after_switch.branches@[i].version == 0);
            assert(saved == Ok::<i32, WorkspaceError>(0i32));
            assert(self.branches@.len() == old(self).branches@.len() + 1);
            assert forall|j: int|
                0 <= j < old(self).branches@.len() implies self.branches@[j] == (
            #[trigger] old(self).branches@[j]) by {
                assert(after_switch.branches@[j] == after_add.branches@[j]);
                assert(self.branches@[j] == after_switch.branches@[j]);
                assert(after_add.branches@[j] == old(self).branches@.push(branch)[j]);
            }
            assert(self.branches@.last().name == after_switch.branches@[i].name);
            assert(self.branches@.last().name@ == name@);
            assert(self.branches@.last().description@ == description@);
            assert(self.branches@.last().version == 1);
            assert(self.info == after_switch.info);
            assert(self.active_is(name@));
            assert(Workspace::same_info_but_current(self.info, old(self).info));
            assert(Workspace::same_shell(*self, *old(self)));
        }
        match saved {
            Ok(v) => Ok(Some(v)),
            Err(_) => {
                // The branch just added is active and present, so the save
                // cannot have failed.
                proof {
                    assert(false);
                }
                Ok(None)
            },
        }
    }

    /// Resolve a restore: the explicit version when one is given, else the
    /// active branch's own version field (the next number a save would
    /// write, not the latest completed snapshot). The shell then reports
    /// whether that version's directory exists; when it does the plan is to
    /// load it (clearing the working directory first, as a switch does),
    /// when it does not the plan is to clear the working directory and
    /// leave it empty.
    pub fn restore_version(&self, explicit_version: Option<i32>, snapshot_exists: bool) -> (r:
        Result<RestoreAction, WorkspaceError>)
        ensures
            !self.has_active() ==> err_is_no_active(r),
            self.info.current_branch matches Some(c) ==> (!has_branch(self.branches@, c@)
                ==> err_is_branch_not_found(r, c@)),
            self.info.current_branch matches Some(c) ==> (has_branch(self.branches@, c@)
                ==> exists|i: int|
                {
                    &&& 0 <= i < self.branches@.len()
                    &&& (#[trigger] self.branches@[i]).name@ == c@
                    &&& forall|j: int|
                        0 <= j < i ==> (#[trigger] self.branches@[j]).name@ != c@
                    &&& r == Ok::<RestoreAction, WorkspaceError>(
                        if snapshot_exists {
                            RestoreAction::CopyVersion(
                                match explicit_version {
                                    Option::Some(v) => v,
                                    Option::None => self.branches@[i].version,
                                },
                            )
                        } else {
                            RestoreAction::ClearWorking
                        },
                    )
                }),
    {
        let cur: String = match &self.info.current_branch {
            Option::None => {
                return Err(WorkspaceError::NoActiveBranch);
            },
            Option::Some(c) => c.clone(),
        };
        let n = self.branches.len();
        for i in 0..n
            invariant
                n == self.branches@.len(),
                self.info.current_branch matches Some(c) && cur == c,
                forall|j: int| 0 <= j < i ==> (#[trigger] self.branches@[j]).name@ != cur@,
        {
            if str_eq(self.branches[i].name.as_str(), cur.as_str()) {
                if !snapshot_exists {
                    return Ok(RestoreAction::ClearWorking);
                }
                let v = match explicit_version {
                    Option::Some(v) => v,
                    Option::None => self.branches[i].version,
                };
                return Ok(RestoreAction::CopyVersion(v));
            }
        }
        Err(WorkspaceError::BranchNotFound(cur))
    }

    /// Whether a file passes the optional file-name suffix filter: with no
    /// suffix configured every file is copied, otherwise its name must end
    /// with the suffix.
    pub fn allow_copy(file: &RelPath, allowed_file_type: &Option<String>) -> (r: bool)
        requires
            file@.len() > 0,
        ensures
            r == match *allowed_file_type {
                Option::Some(t) => ends_with_spec(file@.last(), t@),
                Option::None => true,
            },
    {
        let t = match allowed_file_type {
            Option::None => {
                return true;
            },
            Option::Some(t) => t,
        };
        proof {
            assert(file@.len() == file.segments@.len());
        }
        let name = &file.segments[file.segments.len() - 1];
        proof {
            assert(name@ == file@.last());
        }
        str_ends_with(name.as_str(), t.as_str())
    }
}

/// Law (save/switch round trip): a save of the active branch hands the
/// shell version `v` to write (`branches/<name>/<v>/`) and leaves the
/// branch's version field at `v + 1`; a switch back to that branch then
/// resolves its latest completed snapshot as `(v + 1) - 1 == v`, exactly
/// the directory the save filled. `pre` and `post` are the session before
/// and after the save, related as `save_current_state` ensures.
pub proof fn lemma_save_switch_round_trip(pre: Workspace, post: Workspace, name: Seq<char>, saved: i32)
    requires
        pre.info.current_branch matches Some(c) && c@ == name,
        has_branch(pre.branches@, name),
        exists|i: int|
            {
                &&& 0 <= i < pre.branches@.len()
                &&& (#[trigger] pre.branches@[i]).name@ == name
                &&& forall|j: int| 0 <= j < i ==> (#[trigger] pre.branches@[j]).name@ != name
                &&& saved == pre.branches@[i].version
                &&& post.branches@.len() == pre.branches@.len()
                &&& post.branches@[i].name == pre.branches@[i].name
                &&& post.branches@[i].version == pre.branches@[i].version + 1
                &&& forall|j: int|
                    0 <= j < pre.branches@.len() && j != i ==> post.branches@[j] == (
                    #[trigger] pre.branches@[j])
            },
    ensures
        exists|i: int|
            {
                &&& 0 <= i < post.branches@.len()
                &&& (#[trigger] post.branches@[i]).name@ == name
                &&& forall|j: int| 0 <= j < i ==> (#[trigger] post.branches@[j]).name@ != name
                &&& post.branches@[i].version - 1 == saved
            },
{
    let i = choose|i: int|
        {
            &&& 0 <= i < pre.branches@.len()
            &&& (#[trigger] pre.branches@[i]).name@ == name
            &&& forall|j: int| 0 <= j < i ==> (#[trigger] pre.branches@[j]).name@ != name
            &&& saved == pre.branches@[i].version
            &&& post.branches@.len() == pre.branches@.len()
            &&& post.branches@[i].name == pre.branches@[i].name
            &&& post.branches@[i].version == pre.branches@[i].version + 1
            &&& forall|j: int|
                0 <= j < pre.branches@.len() && j != i ==> post.branches@[j] == (
                #[trigger] pre.branches@[j])
        };
    assert(post.branches@[i].name@ == name);
    assert forall|j: int| 0 <= j < i implies (#[trigger] post.branches@[j]).name@ != name by {
        assert(post.branches@[j] == pre.branches@[j]);
        assert(pre.branches@[j].name@ != name);
    }
    assert(post.branches@[i].version - 1 == saved);
}

} // verus!
