//! The glob-based path filter: an ignore set and an inclusion set, where a
//! path is allowed when the ignore set does not match it or the inclusion set
//! does (inclusion overrides ignore).
//!
//! Pattern compilation and matching are done by the `globset` crate behind
//! the trusted wrappers below; everything stated about a compiled set is
//! phrased over the (uninterpreted) pattern list it was built from.

use vstd::prelude::*;

verus! {

// ----------------------------------------------------------------------------
// Trusted boundary to the globset crate.
// ----------------------------------------------------------------------------

#[verifier::external_type_specification]
#[verifier::external_body]
pub struct ExGlob(globset::Glob);

#[verifier::external_type_specification]
#[verifier::external_body]
pub struct ExGlobSet(globset::GlobSet);

#[verifier::external_type_specification]
#[verifier::external_body]
pub struct ExGlobSetBuilder(globset::GlobSetBuilder);

#[verifier::external_type_specification]
#[verifier::external_body]
pub struct ExGlobError(globset::Error);

/// Whether `globset` accepts `pattern` as a syntactically valid glob; a
/// function of the pattern text alone.
pub uninterp spec fn glob_ok(pattern: Seq<char>) -> bool;

/// The pattern text a compiled `globset::Glob` carries.
pub uninterp spec fn glob_pattern(g: globset::Glob) -> Seq<char>;

/// The patterns added so far to a `globset::GlobSetBuilder`, in order.
pub uninterp spec fn builder_patterns(b: globset::GlobSetBuilder) -> Seq<Seq<char>>;

/// The patterns a compiled `globset::GlobSet` was built from, in order.
pub uninterp spec fn glob_set_patterns(s: globset::GlobSet) -> Seq<Seq<char>>;

/// Whether a set built from `patterns` matches `path`; `globset` computes
/// this from the pattern texts and the path alone.
pub uninterp spec fn glob_set_matches(patterns: Seq<Seq<char>>, path: Seq<char>) -> bool;

/// Whether `globset` can compile a set from `patterns`: set building fails
/// only when the underlying regex engine refuses them (a fixed size limit),
/// which is a function of the pattern texts alone.
pub uninterp spec fn glob_build_ok(patterns: Seq<Seq<char>>) -> bool;

/// Relies on globset::Glob::new: parses one glob pattern, succeeding exactly
/// on syntactically valid patterns; the compiled glob carries that pattern.
#[verifier::external_body]
fn glob_new(pattern: &str) -> (r: Result<globset::Glob, globset::Error>)
    ensures
        r is Ok <==> glob_ok(pattern@),
        r matches Ok(g) ==> glob_pattern(g) == pattern@,
{
    globset::Glob::new(pattern)
}

/// Relies on globset::GlobSetBuilder::new: a fresh builder holds no patterns.
#[verifier::external_body]
fn glob_builder_new() -> (r: globset::GlobSetBuilder)
    ensures
        builder_patterns(r) == Seq::<Seq<char>>::empty(),
{
    globset::GlobSetBuilder::new()
}

/// Relies on globset::GlobSetBuilder::add: appends one compiled glob to the
/// builder's pattern list.
#[verifier::external_body]
fn glob_builder_add(b: &mut globset::GlobSetBuilder, g: globset::Glob)
    ensures
        builder_patterns(*final(b)) == builder_patterns(*old(b)).push(glob_pattern(g)),
{
    b.add(g);
}

/// Relies on globset::GlobSetBuilder::build: whether building succeeds
/// depends on the builder's patterns alone (the regex engine compiles them
/// under fixed size limits), and on success the compiled set is built from
/// exactly those patterns.
#[verifier::external_body]
fn glob_builder_build(b: &globset::GlobSetBuilder) -> (r: Result<
    globset::GlobSet,
    globset::Error,
>)
    ensures
        r is Ok <==> glob_build_ok(builder_patterns(*b)),
        r matches Ok(s) ==> glob_set_patterns(s) == builder_patterns(*b),
{
    b.build()
}

/// Relies on globset::GlobSet::is_match: true exactly when some glob of the
/// set matches the path; its documentation states that an empty set matches
/// nothing.
#[verifier::external_body]
fn glob_set_is_match(s: &globset::GlobSet, path: &str) -> (r: bool)
    ensures
        r == glob_set_matches(glob_set_patterns(*s), path@),
        glob_set_patterns(*s).len() == 0 ==> !r,
{
    s.is_match(path)
}

// ----------------------------------------------------------------------------
// Splitting a raw pattern list into inclusion and ignore patterns.
// ----------------------------------------------------------------------------

/// A raw pattern starting with the inclusion marker `!` denotes an inclusion
/// override.
pub open spec fn is_include_pattern(p: Seq<char>) -> bool {
    p.len() > 0 && p[0] == '!'
}

/// The pattern with every leading inclusion marker removed.
pub open spec fn strip_marker(p: Seq<char>) -> Seq<char>
    decreases p.len(),
{
    if p.len() > 0 && p[0] == '!' {
        strip_marker(p.drop_first())
    } else {
        p
    }
}

/// The inclusion patterns of a raw list: those starting with the marker, in
/// order, with their markers stripped.
pub open spec fn include_patterns_of(ps: Seq<Seq<char>>) -> Seq<Seq<char>>
    decreases ps.len(),
{
    if ps.len() == 0 {
        Seq::empty()
    } else {
        include_patterns_of(ps.drop_last()) + (if is_include_pattern(ps.last()) {
            seq![strip_marker(ps.last())]
        } else {
            Seq::empty()
        })
    }
}

/// The ignore patterns of a raw list: those not starting with the marker, in
/// order.
pub open spec fn ignore_patterns_of(ps: Seq<Seq<char>>) -> Seq<Seq<char>>
    decreases ps.len(),
{
    if ps.len() == 0 {
        Seq::empty()
    } else {
        ignore_patterns_of(ps.drop_last()) + (if !is_include_pattern(ps.last()) {
            seq![ps.last()]
        } else {
            Seq::empty()
        })
    }
}

/// Whether the glob compiled from a raw pattern (marker stripped when it is
/// an inclusion pattern) is syntactically valid.
pub open spec fn pattern_compiles(p: Seq<char>) -> bool {
    if is_include_pattern(p) {
        glob_ok(strip_marker(p))
    } else {
        glob_ok(p)
    }
}

proof fn lemma_splits_contain(ps: Seq<Seq<char>>, i: int)
    requires
        0 <= i < ps.len(),
    ensures
        is_include_pattern(ps[i]) ==> include_patterns_of(ps).contains(strip_marker(ps[i])),
        !is_include_pattern(ps[i]) ==> ignore_patterns_of(ps).contains(ps[i]),
    decreases ps.len(),
{
    if i == ps.len() - 1 {
        if is_include_pattern(ps[i]) {
            let w = include_patterns_of(ps);
            assert(w[w.len() - 1] == strip_marker(ps[i]));
        } else {
            let w = ignore_patterns_of(ps);
            assert(w[w.len() - 1] == ps[i]);
        }
    } else {
        lemma_splits_contain(ps.drop_last(), i);
        assert(ps.drop_last()[i] == ps[i]);
        if is_include_pattern(ps[i]) {
            let sub = include_patterns_of(ps.drop_last());
            let k = choose|k: int| 0 <= k < sub.len() && sub[k] == strip_marker(ps[i]);
            assert(include_patterns_of(ps)[k] == strip_marker(ps[i]));
        } else {
            let sub = ignore_patterns_of(ps.drop_last());
            let k = choose|k: int| 0 <= k < sub.len() && sub[k] == ps[i];
            assert(ignore_patterns_of(ps)[k] == ps[i]);
        }
    }
}

proof fn lemma_include_split_mem(ps: Seq<Seq<char>>, k: int)
    requires
        0 <= k < include_patterns_of(ps).len(),
    ensures
        exists|i: int|
            0 <= i < ps.len() && is_include_pattern(#[trigger] ps[i]) && include_patterns_of(ps)[k]
                == strip_marker(ps[i]),
    decreases ps.len(),
{
    let w = include_patterns_of(ps);
    let sub = include_patterns_of(ps.drop_last());
    if k < sub.len() {
        lemma_include_split_mem(ps.drop_last(), k);
        let i = choose|i: int|
            0 <= i < ps.drop_last().len() && is_include_pattern(#[trigger] ps.drop_last()[i])
                && sub[k] == strip_marker(ps.drop_last()[i]);
        assert(ps[i] == ps.drop_last()[i]);
        assert(w[k] == sub[k]);
    } else {
        assert(is_include_pattern(ps.last()));
        assert(w[k] == strip_marker(ps.last()));
        assert(ps[ps.len() - 1] == ps.last());
    }
}

proof fn lemma_ignore_split_mem(ps: Seq<Seq<char>>, k: int)
    requires
        0 <= k < ignore_patterns_of(ps).len(),
    ensures
        exists|i: int|
            0 <= i < ps.len() && !is_include_pattern(#[trigger] ps[i]) && ignore_patterns_of(ps)[k]
                == ps[i],
    decreases ps.len(),
{
    let w = ignore_patterns_of(ps);
    let sub = ignore_patterns_of(ps.drop_last());
    if k < sub.len() {
        lemma_ignore_split_mem(ps.drop_last(), k);
        let i = choose|i: int|
            0 <= i < ps.drop_last().len() && !is_include_pattern(#[trigger] ps.drop_last()[i])
                && sub[k] == ps.drop_last()[i];
        assert(ps[i] == ps.drop_last()[i]);
        assert(w[k] == sub[k]);
    } else {
        assert(!is_include_pattern(ps.last()));
        assert(w[k] == ps.last());
        assert(ps[ps.len() - 1] == ps.last());
    }
}

// ----------------------------------------------------------------------------
// The filter itself.
// ----------------------------------------------------------------------------

/// A compiled inclusion/ignore pattern pair. Immutable after construction.
#[derive(Debug)]
pub struct FileFilter {
    pub includes: globset::GlobSet,
    pub ignore: globset::GlobSet,
}

impl FileFilter {
    /// A path participates in a copy exactly when the ignore set does not
    /// match it, or the inclusion set does.
    pub open spec fn allows(self, path: Seq<char>) -> bool {
        !glob_set_matches(glob_set_patterns(self.ignore), path) || glob_set_matches(
            glob_set_patterns(self.includes),
            path,
        )
    }

    /// Compile a raw pattern list. Patterns starting with `!` become inclusion
    /// patterns (marker stripped), the rest ignore patterns; each side is
    /// compiled into its own set. Construction succeeds exactly when every
    /// pattern is a syntactically valid glob (after stripping its marker)
    /// and both sets compile from theirs.
    pub fn new(pattern: Vec<String>) -> (r: Result<FileFilter, globset::Error>)
        ensures
            r is Ok <==> {
                &&& forall|i: int|
                    0 <= i < pattern.deep_view().len() ==> pattern_compiles(
                        #[trigger] pattern.deep_view()[i],
                    )
                &&& glob_build_ok(include_patterns_of(pattern.deep_view()))
                &&& glob_build_ok(ignore_patterns_of(pattern.deep_view()))
            },
            r matches Ok(f) ==> glob_set_patterns(f.includes) == include_patterns_of(
                pattern.deep_view(),
            ) && glob_set_patterns(f.ignore) == ignore_patterns_of(pattern.deep_view()),
    {
        let ghost dv = pattern.deep_view();
        let mut includes: Vec<String> = Vec::new();
        let mut ignore: Vec<String> = Vec::new();
        let n = pattern.len();
        for i in 0..n
            invariant
                n == dv.len(),
                pattern.deep_view() == dv,
                includes.deep_view() == include_patterns_of(dv.take(i as int)),
                ignore.deep_view() == ignore_patterns_of(dv.take(i as int)),
        {
            let p = &pattern[i];
            proof {
                assert(dv.take(i + 1).drop_last() =~= dv.take(i as int));
                assert(dv.take(i + 1).last() == dv[i as int]);
            }
            if starts_with_marker(p) {
                let stripped = strip_marker_exec(p);
                includes.push(stripped);
                proof {
                    assert(includes.deep_view() =~= include_patterns_of(dv.take(i + 1)));
                    assert(ignore.deep_view() =~= ignore_patterns_of(dv.take(i + 1)));
                }
            } else {
                ignore.push(p.clone());
                proof {
                    assert(includes.deep_view() =~= include_patterns_of(dv.take(i + 1)));
                    assert(ignore.deep_view() =~= ignore_patterns_of(dv.take(i + 1)));
                }
            }
        }
        proof {
            assert(dv.take(n as int) =~= dv);
        }

        let include_set = match build_set(&includes) {
            Ok(s) => s,
            Err(e) => {
                proof {
                    if glob_build_ok(include_patterns_of(dv)) {
                        let k = choose|k: int|
                            0 <= k < include_patterns_of(dv).len() && !glob_ok(
                                #[trigger] include_patterns_of(dv)[k],
                            );
                        lemma_include_split_mem(dv, k);
                        let i = choose|i: int|
                            0 <= i < dv.len() && is_include_pattern(#[trigger] dv[i])
                                && include_patterns_of(dv)[k] == strip_marker(dv[i]);
                        assert(!pattern_compiles(dv[i]));
                    }
                }
                return Err(e);
            },
        };
        let ignore_set = match build_set(&ignore) {
            Ok(s) => s,
            Err(e) => {
                proof {
                    if glob_build_ok(ignore_patterns_of(dv)) {
                        let k = choose|k: int|
                            0 <= k < ignore_patterns_of(dv).len() && !glob_ok(
                                #[trigger] ignore_patterns_of(dv)[k],
                            );
                        lemma_ignore_split_mem(dv, k);
                        let i = choose|i: int|
                            0 <= i < dv.len() && !is_include_pattern(#[trigger] dv[i])
                                && ignore_patterns_of(dv)[k] == dv[i];
                        assert(!pattern_compiles(dv[i]));
                    }
                }
                return Err(e);
            },
        };

        proof {
            assert forall|i: int| 0 <= i < dv.len() implies pattern_compiles(#[trigger] dv[i]) by {
                lemma_splits_contain(dv, i);
                if is_include_pattern(dv[i]) {
                    let w = include_patterns_of(dv);
                    let k = choose|k: int| 0 <= k < w.len() && w[k] == strip_marker(dv[i]);
                    assert(glob_ok(w[k]));
                } else {
                    let w = ignore_patterns_of(dv);
                    let k = choose|k: int| 0 <= k < w.len() && w[k] == dv[i];
                    assert(glob_ok(w[k]));
                }
            }
        }

        Ok(FileFilter { includes: include_set, ignore: ignore_set })
    }

    /// Decide whether a path, already relative to the filtering root, may
    /// participate in a copy. With no ignore patterns every path is allowed.
    pub fn allow_file(&self, file: &str) -> (r: bool)
        ensures
            r == self.allows(file@),
            glob_set_patterns(self.ignore).len() == 0 ==> r,
    {
        let ignored = glob_set_is_match(&self.ignore, file);
        let included = glob_set_is_match(&self.includes, file);
        !ignored || included
    }
}

/// Compile one side of the filter: every pattern of `patterns`, in order,
/// into a single set. Succeeds exactly when every pattern is a valid glob
/// and the set compiles from them.
fn build_set(patterns: &Vec<String>) -> (r: Result<globset::GlobSet, globset::Error>)
    ensures
        r is Ok <==> (forall|i: int|
            0 <= i < patterns.deep_view().len() ==> glob_ok(#[trigger] patterns.deep_view()[i]))
            && glob_build_ok(patterns.deep_view()),
        r matches Ok(s) ==> glob_set_patterns(s) == patterns.deep_view(),
{
    let ghost dv = patterns.deep_view();
    let mut builder = glob_builder_new();
    let n = patterns.len();
    for i in 0..n
        invariant
            n == dv.len(),
            patterns.deep_view() == dv,
            builder_patterns(builder) == dv.take(i as int),
            forall|k: int| 0 <= k < i ==> glob_ok(#[trigger] dv[k]),
    {
        let g = match glob_new(patterns[i].as_str()) {
            Ok(g) => g,
            Err(e) => {
                proof {
                    assert(!glob_ok(dv[i as int]));
                }
                return Err(e);
            },
        };
        glob_builder_add(&mut builder, g);
        proof {
            assert(builder_patterns(builder) =~= dv.take(i + 1));
        }
    }
    proof {
        assert(dv.take(n as int) =~= dv);
    }
    glob_builder_build(&builder)
}

/// Whether the raw pattern starts with the inclusion marker.
fn starts_with_marker(p: &str) -> (r: bool)
    ensures
        r == is_include_pattern(p@),
{
    if p.unicode_len() == 0 {
        false
    } else {
        p.get_char(0) == '!'
    }
}

proof fn lemma_strip_marker_skip(p: Seq<char>, k: int)
    requires
        0 <= k <= p.len(),
        forall|j: int| 0 <= j < k ==> p[j] == '!',
        k == p.len() || p[k] != '!',
    ensures
        strip_marker(p) == p.skip(k),
    decreases k,
{
    if k == 0 {
        assert(p.skip(0) =~= p);
    } else {
        assert(p.len() > 0 && p[0] == '!');
        lemma_strip_marker_skip(p.drop_first(), k - 1);
        assert(p.drop_first().skip(k - 1) =~= p.skip(k));
    }
}

/// The raw pattern with every leading inclusion marker removed.
fn strip_marker_exec(p: &str) -> (r: String)
    ensures
        r@ == strip_marker(p@),
{
    let n = p.unicode_len();
    let mut k: usize = 0;
    while k < n && p.get_char(k) == '!'
        invariant
            n == p@.len(),
            0 <= k <= n,
            forall|j: int| 0 <= j < k ==> p@[j] == '!',
        decreases n - k,
    {
        k = k + 1;
    }
    proof {
        lemma_strip_marker_skip(p@, k as int);
    }
    let rest = p.substring_char(k, n);
    proof {
        assert(rest@ =~= p@.skip(k as int));
    }
    rest.to_owned()
}

// ----------------------------------------------------------------------------
// Laws.
// ----------------------------------------------------------------------------

/// Law (filter precedence): a path matched by both the ignore set and the
/// inclusion set is allowed; a path matched only by the ignore set is not; a
/// path the ignore set does not match is allowed whatever the inclusion set
/// says.
pub proof fn lemma_filter_precedence(f: FileFilter, path: Seq<char>)
    ensures
        glob_set_matches(glob_set_patterns(f.ignore), path) && glob_set_matches(
            glob_set_patterns(f.includes),
            path,
        ) ==> f.allows(path),
        glob_set_matches(glob_set_patterns(f.ignore), path) && !glob_set_matches(
            glob_set_patterns(f.includes),
            path,
        ) ==> !f.allows(path),
        !glob_set_matches(glob_set_patterns(f.ignore), path) ==> f.allows(path),
{
}

} // verus!
