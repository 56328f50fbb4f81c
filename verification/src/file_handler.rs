//! Copy planning for the snapshot store. The unverified shell enumerates the
//! files under a source directory and hands them here as root-relative paths;
//! this module decides which files survive the filter and which destination
//! directories must be created, and hands back a plan the shell executes with
//! plain file-system calls.

use vstd::prelude::*;

use crate::file_filter::FileFilter;

verus! {

/// A path relative to a copy root, as a list of name segments.
/// Its view is the sequence of segment texts.
#[derive(Debug, PartialEq, Eq)]
pub struct RelPath {
    pub segments: Vec<String>,
}

impl View for RelPath {
    type V = Seq<Seq<char>>;

    open spec fn view(&self) -> Seq<Seq<char>> {
        self.segments.deep_view()
    }
}

/// The segments joined with `/` separators.
pub open spec fn joined(segs: Seq<Seq<char>>) -> Seq<char>
    decreases segs.len(),
{
    if segs.len() == 0 {
        Seq::empty()
    } else if segs.len() == 1 {
        segs[0]
    } else {
        joined(segs.drop_last()) + seq!['/'] + segs.last()
    }
}

impl RelPath {
    pub fn new(segments: Vec<String>) -> (r: RelPath)
        ensures
            r@ == segments.deep_view(),
    {
        RelPath { segments }
    }

    /// The parent path: every segment but the last.
    pub fn parent(&self) -> (r: RelPath)
        requires
            self@.len() > 0,
        ensures
            r@ == self@.drop_last(),
    {
        let mut segs: Vec<String> = Vec::new();
        let n = self.segments.len() - 1;
        for i in 0..n
            invariant
                n == self.segments@.len() - 1,
                segs@ =~= self.segments@.take(i as int),
        {
            segs.push(self.segments[i].clone());
            proof {
                assert(segs@ =~= self.segments@.take(i + 1));
            }
        }
        proof {
            assert(segs@ =~= self.segments@.take(n as int));
            assert forall|j: int| 0 <= j < segs.deep_view().len() implies segs.deep_view()[j]
                == self@.drop_last()[j] by {
                assert(segs@[j] == self.segments@[j]);
            }
            assert(segs.deep_view() =~= self@.drop_last());
        }
        RelPath { segments: segs }
    }

    /// Render the path with `/` separators, for matching and display.
    pub fn to_path_string(&self) -> (r: String)
        ensures
            r@ == joined(self@),
    {
        let mut out = String::new();
        let n = self.segments.len();
        for i in 0..n
            invariant
                n == self@.len(),
                out@ == joined(self@.take(i as int)),
        {
            if i > 0 {
                out.append("/");
            }
            out.append(self.segments[i].as_str());
            proof {
                reveal_strlit("/");
                assert(self@.take(i + 1).drop_last() =~= self@.take(i as int));
                assert(self@.take(i + 1).last() == self@[i as int]);
                if i == 0 {
                    assert(out@ =~= joined(self@.take(1)));
                } else {
                    assert("/"@ =~= seq!['/']);
                    assert(out@ =~= joined(self@.take(i + 1)));
                }
            }
        }
        proof {
            assert(self@.take(n as int) =~= self@);
        }
        out
    }
}

/// Value equality of two relative paths.
pub fn rel_path_eq(a: &RelPath, b: &RelPath) -> (r: bool)
    ensures
        r == (a@ == b@),
{
    if a.segments.len() != b.segments.len() {
        proof {
            assert(a@.len() != b@.len());
        }
        return false;
    }
    let n = a.segments.len();
    for i in 0..n
        invariant
            n == a@.len() && n == b@.len(),
            n == a.segments@.len() && n == b.segments@.len(),
            forall|j: int| 0 <= j < i ==> a@[j] == b@[j],
    {
        if !(a.segments[i] == b.segments[i]) {
            proof {
                assert(a@[i as int] != b@[i as int]);
            }
            return false;
        }
        proof {
            assert(a@[i as int] == b@[i as int]);
        }
    }
    proof {
        assert(a@ =~= b@);
    }
    true
}

/// Whether some entry of `v` has the same path as `p`.
fn contains_path(v: &Vec<RelPath>, p: &RelPath) -> (r: bool)
    ensures
        r == (exists|k: int| 0 <= k < v@.len() && (#[trigger] v@[k])@ == p@),
{
    let n = v.len();
    for i in 0..n
        invariant
            n == v@.len(),
            forall|k: int| 0 <= k < i ==> (#[trigger] v@[k])@ != p@,
    {
        if rel_path_eq(&v[i], p) {
            return true;
        }
    }
    false
}

/// The destination directories a copy of `files` must create: the distinct
/// parents of the files, top-level files needing none. Every directory in
/// the result is the exact parent of some file, so none is dropped in favour
/// of a deeper one: a directory is subsumed by a descendant only when no
/// file lies directly in it, and each entry here has one.
pub fn plan_dirs(files: &Vec<RelPath>) -> (dirs: Vec<RelPath>)
    ensures
        forall|k: int|
            0 <= k < dirs@.len() ==> (#[trigger] dirs@[k])@.len() > 0 && exists|f: int|
                0 <= f < files@.len() && (#[trigger] files@[f])@.len() > 1 && dirs@[k]@
                    == files@[f]@.drop_last(),
        forall|f: int|
            0 <= f < files@.len() && (#[trigger] files@[f])@.len() > 1 ==> exists|k: int|
                0 <= k < dirs@.len() && (#[trigger] dirs@[k])@ == files@[f]@.drop_last(),
        forall|k1: int, k2: int|
            0 <= k1 < k2 < dirs@.len() ==> (#[trigger] dirs@[k1])@ != (#[trigger] dirs@[k2])@,
{
    let mut dirs: Vec<RelPath> = Vec::new();
    let n = files.len();
    for i in 0..n
        invariant
            n == files@.len(),
            forall|k: int|
                0 <= k < dirs@.len() ==> (#[trigger] dirs@[k])@.len() > 0 && exists|f: int|
                    0 <= f < files@.len() && (#[trigger] files@[f])@.len() > 1 && dirs@[k]@
                        == files@[f]@.drop_last(),
            forall|f: int|
                0 <= f < i && (#[trigger] files@[f])@.len() > 1 ==> exists|k: int|
                    0 <= k < dirs@.len() && (#[trigger] dirs@[k])@ == files@[f]@.drop_last(),
            forall|k1: int, k2: int|
                0 <= k1 < k2 < dirs@.len() ==> (#[trigger] dirs@[k1])@ != (#[trigger] dirs@[k2])@,
    {
        proof {
            assert(files@[i as int]@.len() == files[i as int].segments@.len());
        }
        if files[i].segments.len() > 1 {
            let parent = files[i].parent();
            let ghost pre = dirs@;
            if !contains_path(&dirs, &parent) {
                dirs.push(parent);
                proof {
                    assert forall|k: int| 0 <= k < dirs@.len() implies (#[trigger] dirs@[k])@.len()
                        > 0 && exists|f: int|
                        0 <= f < files@.len() && (#[trigger] files@[f])@.len() > 1 && dirs@[k]@
                            == files@[f]@.drop_last() by {
                        if k < pre.len() {
                            assert(dirs@[k] == pre[k]);
                        } else {
                            assert(dirs@[k]@ == files@[i as int]@.drop_last());
                            assert(files@[i as int]@.len() > 1);
                        }
                    }
                    assert forall|f: int|
                        0 <= f < i + 1 && (#[trigger] files@[f])@.len() > 1 implies exists|k: int|
                        0 <= k < dirs@.len() && (#[trigger] dirs@[k])@
                            == files@[f]@.drop_last() by {
                        if f < i {
                            let k0 = choose|k: int|
                                0 <= k < pre.len() && (#[trigger] pre[k])@
                                    == files@[f]@.drop_last();
                            assert(dirs@[k0]@ == files@[f]@.drop_last());
                        } else {
                            assert(dirs@[dirs@.len() - 1]@ == files@[f]@.drop_last());
                        }
                    }
                    assert forall|k1: int, k2: int|
                        0 <= k1 < k2 < dirs@.len() implies (#[trigger] dirs@[k1])@
                        != (#[trigger] dirs@[k2])@ by {
                        if k2 < pre.len() {
                            assert(dirs@[k1] == pre[k1] && dirs@[k2] == pre[k2]);
                        } else {
                            assert(dirs@[k1] == pre[k1]);
                            assert(dirs@[k2]@ == parent@);
                        }
                    }
                }
            } else {
                proof {
                    assert forall|f: int|
                        0 <= f < i + 1 && (#[trigger] files@[f])@.len() > 1 implies exists|k: int|
                        0 <= k < dirs@.len() && (#[trigger] dirs@[k])@
                            == files@[f]@.drop_last() by {
                        if f == i {
                            let k0 = choose|k: int|
                                0 <= k < dirs@.len() && (#[trigger] dirs@[k])@ == parent@;
                            assert(dirs@[k0]@ == files@[f]@.drop_last());
                        }
                    }
                }
            }
        }
    }
    dirs
}

/// What a filtered copy must do: create these directories under the
/// destination (each creation also creating its missing ancestors), then
/// copy these files, source-relative path to the same destination-relative
/// path.
pub struct CopyPlan {
    pub dirs: Vec<RelPath>,
    pub files: Vec<RelPath>,
}

/// Outcome of a copy batch.
#[derive(Debug, PartialEq, Eq)]
pub enum CopyResult {
    Copied,
    NoFileToCopy,
}

impl CopyPlan {
    /// Whether the plan copies any file at all.
    pub fn outcome(&self) -> (r: CopyResult)
        ensures
            (r matches CopyResult::Copied) == (self.files@.len() > 0),
    {
        if self.files.len() > 0 {
            CopyResult::Copied
        } else {
            CopyResult::NoFileToCopy
        }
    }
}

/// The files of `s`, in order, whose joined path the filter allows.
pub open spec fn glob_filtered(s: Seq<RelPath>, f: FileFilter) -> Seq<RelPath>
    decreases s.len(),
{
    if s.len() == 0 {
        Seq::empty()
    } else {
        glob_filtered(s.drop_last(), f) + (if f.allows(joined(s.last()@)) {
            seq![s.last()]
        } else {
            Seq::empty()
        })
    }
}

/// Keep exactly the files the filter allows, in order.
pub fn filter_files(filter: &FileFilter, files: Vec<RelPath>) -> (r: Vec<RelPath>)
    ensures
        r@ == glob_filtered(files@, *filter),
{
    let ghost orig = files@;
    let mut rem = files;
    let mut out: Vec<RelPath> = Vec::new();
    while rem.len() > 0
        invariant
            rem@ =~= orig.skip(orig.len() - rem@.len()),
            rem@.len() <= orig.len(),
            out@ =~= glob_filtered(orig.take(orig.len() - rem@.len()), *filter),
        decreases rem@.len(),
    {
        let ghost j = orig.len() - rem@.len();
        let p = rem.remove(0);
        proof {
            assert(p == orig[j]);
            assert(rem@ =~= orig.skip(j + 1));
            assert(orig.take(j + 1).drop_last() =~= orig.take(j));
            assert(orig.take(j + 1).last() == orig[j]);
        }
        let path = p.to_path_string();
        if filter.allow_file(path.as_str()) {
            out.push(p);
            proof {
                assert(out@ =~= glob_filtered(orig.take(j + 1), *filter));
            }
        } else {
            proof {
                assert(out@ =~= glob_filtered(orig.take(j + 1), *filter));
            }
        }
    }
    proof {
        assert(orig.take(orig.len() as int) =~= orig);
    }
    out
}

/// The central filtered-copy computation: keep the files the filter allows,
/// then compute the directories the copy must create for them.
pub fn filter_copy_plan(filter: &FileFilter, files: Vec<RelPath>) -> (plan: CopyPlan)
    ensures
        plan.files@ == glob_filtered(files@, *filter),
        forall|k: int|
            0 <= k < plan.dirs@.len() ==> (#[trigger] plan.dirs@[k])@.len() > 0 && exists|f: int|
                0 <= f < plan.files@.len() && (#[trigger] plan.files@[f])@.len() > 1
                    && plan.dirs@[k]@ == plan.files@[f]@.drop_last(),
        forall|f: int|
            0 <= f < plan.files@.len() && (#[trigger] plan.files@[f])@.len() > 1 ==> exists|k: int|
                0 <= k < plan.dirs@.len() && (#[trigger] plan.dirs@[k])@
                    == plan.files@[f]@.drop_last(),
        forall|k1: int, k2: int|
            0 <= k1 < k2 < plan.dirs@.len() ==> (#[trigger] plan.dirs@[k1])@ != (
            #[trigger] plan.dirs@[k2])@,
{
    let kept = filter_files(filter, files);
    let dirs = plan_dirs(&kept);
    CopyPlan { dirs, files: kept }
}

// ----------------------------------------------------------------------------
// The file-name suffix filter used by top-level-only copying.
// ----------------------------------------------------------------------------

/// Whether `s` ends with `suffix`.
pub open spec fn ends_with_spec(s: Seq<char>, suffix: Seq<char>) -> bool {
    s.len() >= suffix.len() && (forall|i: int|
        0 <= i < suffix.len() ==> s[s.len() - suffix.len() + i] == suffix[i])
}

/// Whether `s` ends with `suffix`, by characters.
pub fn str_ends_with(s: &str, suffix: &str) -> (r: bool)
    ensures
        r == ends_with_spec(s@, suffix@),
{
    let n = s.unicode_len();
    let m = suffix.unicode_len();
    if m > n {
        return false;
    }
    for i in 0..m
        invariant
            n == s@.len(),
            m == suffix@.len(),
            m <= n,
            forall|j: int| 0 <= j < i ==> s@[n - m + j] == suffix@[j],
    {
        if s.get_char(n - m + i) != suffix.get_char(i) {
            return false;
        }
    }
    true
}

/// Character-for-character equality of two strings.
pub fn str_eq(a: &str, b: &str) -> (r: bool)
    ensures
        r == (a@ == b@),
{
    let n = a.unicode_len();
    let m = b.unicode_len();
    if n != m {
        proof {
            assert(a@.len() != b@.len());
        }
        return false;
    }
    for i in 0..n
        invariant
            n == a@.len(),
            n == b@.len(),
            forall|j: int| 0 <= j < i ==> a@[j] == b@[j],
    {
        if a.get_char(i) != b.get_char(i) {
            proof {
                assert(a@[i as int] != b@[i as int]);
            }
            return false;
        }
    }
    proof {
        assert(a@ =~= b@);
    }
    true
}

/// The decimal digit character for `d`.
pub open spec fn dec_digit(d: nat) -> char {
    if d == 0 {
        '0'
    } else if d == 1 {
        '1'
    } else if d == 2 {
        '2'
    } else if d == 3 {
        '3'
    } else if d == 4 {
        '4'
    } else if d == 5 {
        '5'
    } else if d == 6 {
        '6'
    } else if d == 7 {
        '7'
    } else if d == 8 {
        '8'
    } else {
        '9'
    }
}

/// The decimal rendering of `n`, most significant digit first, without
/// leading zeroes (a single `0` for zero).
pub open spec fn dec_digits(n: nat) -> Seq<char>
    decreases n,
{
    if n < 10 {
        seq![dec_digit(n)]
    } else {
        dec_digits(n / 10) + seq![dec_digit(n % 10)]
    }
}

fn dec_digit_str(d: u32) -> (r: &'static str)
    requires
        d < 10,
    ensures
        r@ == seq![dec_digit(d as nat)],
{
    proof {
        reveal_strlit("0");
        reveal_strlit("1");
        reveal_strlit("2");
        reveal_strlit("3");
        reveal_strlit("4");
        reveal_strlit("5");
        reveal_strlit("6");
        reveal_strlit("7");
        reveal_strlit("8");
        reveal_strlit("9");
    }
    let r = match d {
        0 => "0",
        1 => "1",
        2 => "2",
        3 => "3",
        4 => "4",
        5 => "5",
        6 => "6",
        7 => "7",
        8 => "8",
        _ => "9",
    };
    proof {
        assert(r@ =~= seq![dec_digit(d as nat)]);
    }
    r
}

/// Render `n` in decimal.
pub fn u32_to_dec_string(n: u32) -> (r: String)
    ensures
        r@ == dec_digits(n as nat),
    decreases n,
{
    if n < 10 {
        dec_digit_str(n).to_owned()
    } else {
        proof {
            assert(n / 10 < n);
        }
        let mut s = u32_to_dec_string(n / 10);
        s.append(dec_digit_str(n % 10));
        s
    }
}

/// Whether a file passes the optional file-name suffix filter: with no
/// suffix configured every file passes, otherwise its name (last segment)
/// must end with the suffix.
pub open spec fn allow_type_spec(file: Seq<Seq<char>>, file_type: Option<String>) -> bool {
    match file_type {
        Option::None => true,
        Option::Some(t) => file.len() > 0 && ends_with_spec(file.last(), t@),
    }
}

/// The files of `s`, in order, that the filter allows and that pass the
/// suffix filter; used by top-level-only copying, which creates no
/// directories.
pub open spec fn top_filtered(s: Seq<RelPath>, f: FileFilter, file_type: Option<String>) -> Seq<
    RelPath,
>
    decreases s.len(),
{
    if s.len() == 0 {
        Seq::empty()
    } else {
        top_filtered(s.drop_last(), f, file_type) + (if f.allows(joined(s.last()@))
            && allow_type_spec(s.last()@, file_type) {
            seq![s.last()]
        } else {
            Seq::empty()
        })
    }
}

/// Top-level-only mode: the direct file children of the source that the
/// filter allows and that pass the suffix filter. No directories need to be
/// created for them.
pub fn top_level_plan(filter: &FileFilter, files: Vec<RelPath>, file_type: &Option<String>) -> (r:
    Vec<RelPath>)
    requires
        forall|i: int| 0 <= i < files@.len() ==> (#[trigger] files@[i])@.len() > 0,
    ensures
        r@ == top_filtered(files@, *filter, *file_type),
{
    let ghost orig = files@;
    let mut rem = files;
    let mut out: Vec<RelPath> = Vec::new();
    while rem.len() > 0
        invariant
            rem@ =~= orig.skip(orig.len() - rem@.len()),
            rem@.len() <= orig.len(),
            out@ =~= top_filtered(orig.take(orig.len() - rem@.len()), *filter, *file_type),
            forall|i: int| 0 <= i < orig.len() ==> (#[trigger] orig[i])@.len() > 0,
        decreases rem@.len(),
    {
        let ghost j = orig.len() - rem@.len();
        let p = rem.remove(0);
        proof {
            assert(p == orig[j]);
            assert(rem@ =~= orig.skip(j + 1));
            assert(orig.take(j + 1).drop_last() =~= orig.take(j));
            assert(orig.take(j + 1).last() == orig[j]);
            assert(p@.len() == p.segments@.len());
        }
        let path = p.to_path_string();
        let glob_allowed = filter.allow_file(path.as_str());
        let type_allowed = match file_type {
            Option::None => true,
            Option::Some(t) => {
                let name = &p.segments[p.segments.len() - 1];
                proof {
                    assert(name@ == p@.last());
                }
                str_ends_with(name.as_str(), t.as_str())
            },
        };
        if glob_allowed && type_allowed {
            out.push(p);
            proof {
                assert(out@ =~= top_filtered(orig.take(j + 1), *filter, *file_type));
            }
        } else {
            proof {
                assert(out@ =~= top_filtered(orig.take(j + 1), *filter, *file_type));
            }
        }
    }
    proof {
        assert(orig.take(orig.len() as int) =~= orig);
    }
    out
}

} // verus!
