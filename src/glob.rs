use vstd::prelude::*;
use crate::text::{concat, trim_end_slashes, trim_trailing_slashes};

verus! {

/// Whether a glob pattern is accepted by the glob engine: it parses, and a
/// glob set holding it alone builds. Like the engine's defaults (escapes,
/// path separators), it is fixed for the platform the crate is built for.
pub uninterp spec fn glob_valid(pattern: Seq<char>) -> bool;

/// Whether the glob set holding a valid pattern alone matches a path, with
/// the engine's defaults for the platform the crate is built for.
pub uninterp spec fn glob_match(pattern: Seq<char>, path: Seq<char>) -> bool;

/// Relies on globset::Glob::new and globset::GlobSetBuilder::build: each
/// returns an error instead of panicking, and whether both succeed depends
/// on the pattern text alone. `Glob::new` nests one call per level of `{`,
/// so the depth is bounded first.
#[verifier::external_body]
fn glob_compiles(pattern: &str) -> (r: bool)
    requires
        brace_count(pattern@) <= MAX_BRACES,
    ensures
        r == glob_valid(pattern@),
{
    match globset::Glob::new(pattern) {
        Ok(glob) => globset::GlobSetBuilder::new().add(glob).build().is_ok(),
        Err(_) => false,
    }
}

/// Relies on globset::GlobSet::is_match, on the set that
/// globset::GlobSetBuilder::build makes of the pattern alone (the same calls
/// as `glob_compiles`, so they succeed): whether it matches depends on the
/// two texts alone.
#[verifier::external_body]
fn glob_is_match(pattern: &str, path: &str) -> (r: bool)
    requires
        glob_valid(pattern@),
    ensures
        r == glob_match(pattern@, path@),
{
    match globset::Glob::new(pattern) {
        Ok(glob) => match globset::GlobSetBuilder::new().add(glob).build() {
            Ok(set) => set.is_match(path),
            Err(_) => false,
        },
        Err(_) => false,
    }
}

/// The most `{` a pattern may hold. The glob engine parses and translates
/// nested alternations recursively, one call per level; the number of
/// braces bounds the nesting, so it is limited before a pattern reaches the
/// engine. Its regex engine refuses nesting deeper than this anyway.
pub const MAX_BRACES: usize = 250;

/// The number of `{` among the first `n` characters.
pub open spec fn braces_upto(s: Seq<char>, n: int) -> nat
    decreases n,
{
    if n <= 0 {
        0
    } else if s[n - 1] == '{' {
        braces_upto(s, n - 1) + 1
    } else {
        braces_upto(s, n - 1)
    }
}

pub open spec fn brace_count(s: Seq<char>) -> nat {
    braces_upto(s, s.len() as int)
}

/// A pattern the filter accepts: at most `MAX_BRACES` braces, and accepted
/// by the glob engine.
pub open spec fn pattern_accepted(p: Seq<char>) -> bool {
    brace_count(p) <= MAX_BRACES && glob_valid(p)
}

fn braces_within_limit(p: &str) -> (r: bool)
    ensures
        r == (brace_count(p@) <= MAX_BRACES),
{
    let n = p.unicode_len();
    let mut count: usize = 0;
    let mut i: usize = 0;
    while i < n
        invariant
            n == p@.len(),
            i <= n,
            count == braces_upto(p@, i as int),
            count <= MAX_BRACES,
        decreases n - i,
    {
        if p.get_char(i) == '{' {
            if count == MAX_BRACES {
                proof { lemma_braces_monotone(p@, i as int + 1, n as int); }
                return false;
            }
            count = count + 1;
        }
        i = i + 1;
    }
    true
}

proof fn lemma_braces_monotone(s: Seq<char>, i: int, n: int)
    requires
        0 <= i <= n <= s.len(),
    ensures
        braces_upto(s, i) <= braces_upto(s, n),
    decreases n - i,
{
    if i < n {
        lemma_braces_monotone(s, i, n - 1);
    }
}

/// Whether some pattern of the list matches the path.
pub open spec fn matches_any(patterns: Seq<Seq<char>>, path: Seq<char>) -> bool {
    exists|j: int| 0 <= j < patterns.len() && glob_match(#[trigger] patterns[j], path)
}

/// The ancestors of a relative path are its prefixes that end where a `/`
/// stands, at its start (the empty path) or at its end (the path itself).
pub open spec fn is_cut(p: Seq<char>, i: int) -> bool {
    0 <= i <= p.len() && (i == 0 || i == p.len() || p[i] == '/')
}

/// A relative path is included when no ancestor of it (itself included)
/// matches an exclude pattern, and either there are no include patterns or
/// some ancestor of it (itself included) matches one.
pub open spec fn included(p: Seq<char>, includes: Seq<Seq<char>>, excludes: Seq<Seq<char>>) -> bool {
    &&& forall|i: int| #[trigger] is_cut(p, i) ==> !matches_any(excludes, p.subrange(0, i))
    &&& (includes.len() == 0 || exists|i: int| #[trigger] is_cut(p, i) && matches_any(includes, p.subrange(0, i)))
}

/// Every pattern is accepted by the filter.
pub open spec fn all_valid(ps: Seq<Seq<char>>) -> bool {
    forall|j: int| 0 <= j < ps.len() ==> pattern_accepted(#[trigger] ps[j])
}

/// `p` is the first pattern of the list that the filter refuses.
pub open spec fn first_rejected(ps: Seq<Seq<char>>, p: Seq<char>) -> bool {
    exists|j: int| 0 <= j < ps.len() && #[trigger] ps[j] == p && !pattern_accepted(p)
        && forall|k: int| 0 <= k < j ==> pattern_accepted(#[trigger] ps[k])
}

pub open spec fn anywhere_all_spec(ps: Seq<Seq<char>>) -> Seq<Seq<char>> {
    ps.map_values(|p: Seq<char>| anywhere_pattern(p))
}

/// How a user's include or exclude pattern is matched: trailing slashes are
/// dropped and the pattern may match at any depth.
pub open spec fn anywhere_pattern(p: Seq<char>) -> Seq<char> {
    "**/"@ + trim_trailing_slashes(p)
}

pub fn anywhere(pattern: &str) -> (r: String)
    ensures
        r@ == anywhere_pattern(pattern@),
{
    let trimmed = trim_end_slashes(pattern);
    concat("**/", trimmed.as_str())
}

/// Include and exclude patterns, each accepted by the filter.
pub struct GlobFilter {
    includes: Vec<String>,
    excludes: Vec<String>,
}

pub enum GlobError {
    /// The pattern, as written, that the filter refuses.
    Invalid(String),
}

impl GlobFilter {
    #[verifier::type_invariant]
    spec fn patterns_valid(&self) -> bool {
        all_valid(self.includes.deep_view()) && all_valid(self.excludes.deep_view())
    }

    pub closed spec fn include_patterns(&self) -> Seq<Seq<char>> {
        self.includes.deep_view()
    }

    pub closed spec fn exclude_patterns(&self) -> Seq<Seq<char>> {
        self.excludes.deep_view()
    }

    /// A filter from patterns used as given; fails on the first pattern,
    /// includes before excludes, that holds more than `MAX_BRACES` braces or
    /// that the glob engine rejects.
    pub fn new(includes: Vec<String>, excludes: Vec<String>) -> (r: Result<GlobFilter, GlobError>)
        ensures
            r matches Ok(f) ==> f.include_patterns() == includes.deep_view()
                && f.exclude_patterns() == excludes.deep_view(),
            r is Ok <==> all_valid(includes.deep_view() + excludes.deep_view()),
            r matches Err(GlobError::Invalid(p)) ==> first_rejected(includes.deep_view() + excludes.deep_view(), p@),
    {
        let ghost all = includes.deep_view() + excludes.deep_view();
        match first_invalid(&includes) {
            Some(j) => {
                assert(all[j as int] == includes.deep_view()[j as int]);
                assert(forall|k: int| 0 <= k < j ==> #[trigger] all[k] == includes.deep_view()[k]);
                assert(includes.deep_view()[j as int] == includes@[j as int]@);
                assert(first_rejected(all, includes@[j as int]@));
                return Err(GlobError::Invalid(includes[j].clone()));
            },
            None => {},
        }
        match first_invalid(&excludes) {
            Some(j) => {
                let ghost n = includes.deep_view().len();
                assert(all[n + j] == excludes.deep_view()[j as int]);
                assert forall|k: int| 0 <= k < n + j implies pattern_accepted(#[trigger] all[k]) by {
                    if k < n {
                        assert(all[k] == includes.deep_view()[k]);
                    } else {
                        assert(all[k] == excludes.deep_view()[k - n]);
                    }
                }
                assert(excludes.deep_view()[j as int] == excludes@[j as int]@);
                assert(first_rejected(all, excludes@[j as int]@));
                return Err(GlobError::Invalid(excludes[j].clone()));
            },
            None => {},
        }
        let f = GlobFilter { includes, excludes };
        proof {
            assert(f.includes.deep_view() =~= includes.deep_view());
            assert(f.excludes.deep_view() =~= excludes.deep_view());
            let n = includes.deep_view().len();
            assert forall|k: int| 0 <= k < all.len() implies pattern_accepted(#[trigger] all[k]) by {
                if k < n {
                    assert(all[k] == includes.deep_view()[k]);
                } else {
                    assert(all[k] == excludes.deep_view()[k - n]);
                }
            }
        }
        Ok(f)
    }

    /// A filter from the patterns a user wrote, each matched at any depth.
    pub fn from_user_patterns(includes: &Vec<String>, excludes: &Vec<String>) -> (r: Result<GlobFilter, GlobError>)
        ensures
            r matches Ok(f) ==> f.include_patterns() == anywhere_all_spec(includes.deep_view())
                && f.exclude_patterns() == anywhere_all_spec(excludes.deep_view()),
            r is Ok <==> all_valid(anywhere_all_spec(includes.deep_view()) + anywhere_all_spec(excludes.deep_view())),
            r matches Err(GlobError::Invalid(p)) ==> first_rejected(
                anywhere_all_spec(includes.deep_view()) + anywhere_all_spec(excludes.deep_view()), p@),
    {
        let inc = anywhere_all(includes);
        let exc = anywhere_all(excludes);
        GlobFilter::new(inc, exc)
    }

    /// Whether a relative path is included by this filter.
    pub fn includes_path(&self, path: &str) -> (r: bool)
        ensures
            r == included(path@, self.include_patterns(), self.exclude_patterns()),
    {
        proof { use_type_invariant(self); }
        if some_ancestor_matches(path, &self.excludes) {
            return false;
        }
        if self.includes.len() == 0 {
            return true;
        }
        some_ancestor_matches(path, &self.includes)
    }
}

/// Whether some ancestor of the path (the path itself included) matches one
/// of the patterns.
fn some_ancestor_matches(path: &str, patterns: &Vec<String>) -> (r: bool)
    requires
        all_valid(patterns.deep_view()),
    ensures
        r == exists|i: int| #[trigger] is_cut(path@, i) && matches_any(patterns.deep_view(), path@.subrange(0, i)),
{
    let n = path.unicode_len();
    let mut i: usize = 0;
    while i < n
        invariant
            n == path@.len(),
            i <= n,
            all_valid(patterns.deep_view()),
            forall|k: int| 0 <= k < i && #[trigger] is_cut(path@, k)
                ==> !matches_any(patterns.deep_view(), path@.subrange(0, k)),
        decreases n - i,
    {
        if i == 0 || path.get_char(i) == '/' {
            let prefix = path.substring_char(0, i);
            if matches_some(patterns, prefix) {
                assert(is_cut(path@, i as int));
                return true;
            }
        }
        i = i + 1;
    }
    let found = matches_some(patterns, path);
    proof {
        assert(path@.subrange(0, n as int) =~= path@);
        assert(is_cut(path@, n as int));
        assert forall|k: int| #[trigger] is_cut(path@, k) && k != n implies 0 <= k < n by {}
    }
    found
}

/// Whether a relative path passes a filter: no ancestor matches an exclude
/// pattern, and the include patterns are empty or some ancestor matches one.
pub fn should_include_path(path: &str, filter: &GlobFilter) -> (r: bool)
    ensures
        r == included(path@, filter.include_patterns(), filter.exclude_patterns()),
{
    filter.includes_path(path)
}

fn anywhere_all(patterns: &Vec<String>) -> (r: Vec<String>)
    ensures
        r@.len() == patterns@.len(),
        forall|k: int| 0 <= k < r@.len() ==> #[trigger] r@[k]@ == anywhere_pattern(patterns@[k]@),
        r.deep_view() == anywhere_all_spec(patterns.deep_view()),
{
    let mut r: Vec<String> = Vec::new();
    let mut i: usize = 0;
    while i < patterns.len()
        invariant
            i <= patterns.len(),
            r@.len() == i,
            forall|k: int| 0 <= k < i ==> #[trigger] r@[k]@ == anywhere_pattern(patterns@[k]@),
        decreases patterns.len() - i,
    {
        r.push(anywhere(patterns[i].as_str()));
        i = i + 1;
    }
    assert(r.deep_view() =~= patterns.deep_view().map_values(|p: Seq<char>| anywhere_pattern(p)));
    r
}

fn first_invalid(patterns: &Vec<String>) -> (r: Option<usize>)
    ensures
        match r {
            Some(j) => j < patterns.len() && !pattern_accepted(patterns.deep_view()[j as int])
                && forall|k: int| 0 <= k < j ==> pattern_accepted(#[trigger] patterns.deep_view()[k]),
            None => all_valid(patterns.deep_view()),
        },
{
    let mut i: usize = 0;
    while i < patterns.len()
        invariant
            i <= patterns.len(),
            forall|j: int| 0 <= j < i ==> pattern_accepted(#[trigger] patterns.deep_view()[j]),
        decreases patterns.len() - i,
    {
        assert(patterns.deep_view()[i as int] == patterns@[i as int]@);
        if !braces_within_limit(patterns[i].as_str()) || !glob_compiles(patterns[i].as_str()) {
            return Some(i);
        }
        i = i + 1;
    }
    None
}

fn matches_some(patterns: &Vec<String>, path: &str) -> (r: bool)
    requires
        all_valid(patterns.deep_view()),
    ensures
        r == matches_any(patterns.deep_view(), path@),
{
    let mut i: usize = 0;
    while i < patterns.len()
        invariant
            i <= patterns.len(),
            all_valid(patterns.deep_view()),
            forall|j: int| 0 <= j < i ==> !glob_match(#[trigger] patterns.deep_view()[j], path@),
        decreases patterns.len() - i,
    {
        assert(patterns.deep_view()[i as int] == patterns@[i as int]@);
        if glob_is_match(patterns[i].as_str(), path) {
            return true;
        }
        i = i + 1;
    }
    false
}

} // verus!
