//! Exclusion patterns: user-supplied globs naming ignored paths that must be
//! spared from deletion. Compilation and single-string matching are done by
//! the `glob` crate; the three-granularity matching policy on top of it is
//! verified here.
use vstd::prelude::*;

use crate::paths::split_path;

verus! {

/// Whether `glob::Pattern::new` accepts a pattern string. Compilation is a
/// function of the string alone.
pub uninterp spec fn glob_syntax_ok(pattern: Seq<char>) -> bool;

/// What `glob::Pattern::matches` answers for a pattern (named by its source
/// string) and a candidate string. The outcome is a function of the two
/// strings alone.
pub uninterp spec fn glob_match(pattern: Seq<char>, text: Seq<char>) -> bool;

#[verifier::external_type_specification]
#[verifier::external_body]
pub struct ExPattern(glob::Pattern);

/// One compiled exclusion glob together with the text it was compiled from.
pub struct ExclusionPattern {
    text: String,
    compiled: glob::Pattern,
}

/// Relies on glob::Pattern::new: it accepts or rejects a pattern string on
/// its syntax alone, with no side effect, and never panics.
#[verifier::external_body]
fn compile_glob(text: &str) -> (r: Option<glob::Pattern>)
    ensures
        r is Some <==> glob_syntax_ok(text@),
{
    glob::Pattern::new(text).ok()
}

/// Relies on glob::Pattern::matches: the answer depends on the pattern's
/// source string and the candidate string alone, and the call never panics.
/// `compiled` is built from `text` by `ExclusionPattern::new`, this type's
/// only constructor.
#[verifier::external_body]
fn compiled_glob_matches(p: &ExclusionPattern, text: &str) -> (r: bool)
    ensures
        r == glob_match(p.text@, text@),
{
    p.compiled.matches(text)
}

impl ExclusionPattern {
    /// The source text the pattern was compiled from.
    pub closed spec fn view(&self) -> Seq<char> {
        self.text@
    }

    /// Compiles one glob string; rejects it exactly when its syntax is bad.
    pub fn new(text: String) -> (r: Result<ExclusionPattern, String>)
        ensures
            r is Ok <==> glob_syntax_ok(text@),
            r matches Ok(p) ==> p@ == text@,
            r matches Err(t) ==> t@ == text@,
    {
        match compile_glob(text.as_str()) {
            Some(compiled) => Ok(ExclusionPattern { text, compiled }),
            None => Err(text),
        }
    }

    /// Whether this pattern matches the given string.
    pub fn matches_str(&self, text: &str) -> (r: bool)
        ensures
            r == glob_match(self@, text@),
    {
        compiled_glob_matches(self, text)
    }
}

/// Whether pattern `p` spares the relative path `path`: it may match the
/// whole path, the final path component, or any single path component.
pub open spec fn pattern_excludes(p: Seq<char>, path: Seq<char>) -> bool {
    ||| glob_match(p, path)
    ||| (split_path(path).len() > 0 && glob_match(p, split_path(path).last()))
    ||| exists|k: int| 0 <= k < split_path(path).len() && glob_match(p, split_path(path)[k])
}

/// Whether any pattern of the set spares the relative path `path`. An empty
/// set spares nothing.
pub open spec fn set_excludes(pats: Seq<Seq<char>>, path: Seq<char>) -> bool {
    exists|i: int| 0 <= i < pats.len() && pattern_excludes(pats[i], path)
}

/// Law: an empty pattern set spares no path at all, whatever the path.
pub proof fn lemma_empty_pattern_set_excludes_nothing(path: Seq<char>)
    ensures
        !set_excludes(Seq::empty(), path),
{
}

/// Law: a pattern that matches a path's final component (its file or
/// directory name) spares the path, at whatever depth the path lies.
pub proof fn lemma_filename_match_spares_path(pats: Seq<Seq<char>>, i: int, path: Seq<char>)
    requires
        0 <= i < pats.len(),
        split_path(path).len() > 0,
        glob_match(pats[i], split_path(path).last()),
    ensures
        set_excludes(pats, path),
{
    assert(pattern_excludes(pats[i], path));
}

/// Law: a pattern that matches any single component of a path spares the
/// path, at whatever depth that component stands.
pub proof fn lemma_component_match_spares_path(
    pats: Seq<Seq<char>>,
    i: int,
    path: Seq<char>,
    k: int,
)
    requires
        0 <= i < pats.len(),
        0 <= k < split_path(path).len(),
        glob_match(pats[i], split_path(path)[k]),
    ensures
        set_excludes(pats, path),
{
    assert(pattern_excludes(pats[i], path));
}

/// The ordered set of exclusion patterns of one run.
pub struct PatternMatcher {
    patterns: Vec<ExclusionPattern>,
}

impl PatternMatcher {
    /// The source texts of the patterns, in the order they were given.
    pub closed spec fn view(&self) -> Seq<Seq<char>> {
        self.patterns@.map_values(|p: ExclusionPattern| p@)
    }

    /// Compiles every pattern string, or reports the first malformed one; no
    /// partial matcher is produced on failure.
    pub fn new(pattern_strings: &Vec<String>) -> (r: Result<PatternMatcher, String>)
        ensures
            r is Ok <==> (forall|i: int|
                0 <= i < pattern_strings@.len() ==> glob_syntax_ok(pattern_strings@[i]@)),
            r matches Ok(m) ==> m@ == pattern_strings@.map_values(|s: String| s@),
            r matches Err(t) ==> exists|i: int|
                {
                    &&& 0 <= i < pattern_strings@.len()
                    &&& !glob_syntax_ok(pattern_strings@[i]@)
                    &&& t@ == pattern_strings@[i]@
                    &&& forall|j: int| 0 <= j < i ==> glob_syntax_ok(pattern_strings@[j]@)
                },
    {
        let mut patterns: Vec<ExclusionPattern> = Vec::new();
        let n = pattern_strings.len();
        let mut i: usize = 0;
        while i < n
            invariant
                i <= n,
                n == pattern_strings@.len(),
                patterns@.map_values(|p: ExclusionPattern| p@) == pattern_strings@.take(
                    i as int,
                ).map_values(|s: String| s@),
                forall|j: int| 0 <= j < i ==> glob_syntax_ok(pattern_strings@[j]@),
            decreases n - i,
        {
            let text = pattern_strings[i].clone();
            match ExclusionPattern::new(text) {
                Ok(p) => {
                    patterns.push(p);
                    proof {
                        broadcast use vstd::prelude::Seq::lemma_push_map_commute;

                        assert(pattern_strings@.take(i + 1).map_values(|s: String| s@)
                            =~= pattern_strings@.take(i as int).map_values(|s: String| s@).push(
                            pattern_strings@[i as int]@,
                        ));
                    }
                },
                Err(t) => {
                    return Err(t);
                },
            }
            i = i + 1;
        }
        proof {
            assert(pattern_strings@.take(n as int) =~= pattern_strings@);
        }
        Ok(PatternMatcher { patterns })
    }

    /// The number of patterns in the set.
    pub fn len(&self) -> (r: usize)
        ensures
            r == self@.len(),
    {
        self.patterns.len()
    }

    /// Whether any pattern spares the relative path `path`, testing each
    /// pattern against the whole path, its final component, and every
    /// component in turn.
    pub fn matches(&self, path: &str) -> (r: bool)
        ensures
            r == set_excludes(self@, path@),
    {
        let components = crate::paths::split_components(path);
        let np = self.patterns.len();
        let mut i: usize = 0;
        while i < np
            invariant
                i <= np,
                np == self@.len(),
                components@.map_values(|c: String| c@) == split_path(path@),
                self@ == self.patterns@.map_values(|p: ExclusionPattern| p@),
                forall|j: int| 0 <= j < i ==> !pattern_excludes(self@[j], path@),
            decreases np - i,
        {
            let p = &self.patterns[i];
            if p.matches_str(path) {
                assert(glob_match(self@[i as int], path@));
                assert(pattern_excludes(self@[i as int], path@));
                return true;
            }
            if components.len() > 0 {
                let last = &components[components.len() - 1];
                assert(last@ == split_path(path@).last()) by {
                    assert(components@.map_values(|c: String| c@)[components@.len() - 1]
                        == components@[components@.len() - 1]@);
                }
                if p.matches_str(last.as_str()) {
                    assert(glob_match(self@[i as int], split_path(path@).last()));
                    assert(pattern_excludes(self@[i as int], path@));
                    return true;
                }
            }
            let nc = components.len();
            let mut k: usize = 0;
            while k < nc
                invariant
                    k <= nc,
                    nc == components@.len(),
                    i < np,
                    np == self@.len(),
                    components@.map_values(|c: String| c@) == split_path(path@),
                    self@ == self.patterns@.map_values(|p: ExclusionPattern| p@),
                    forall|j: int|
                        0 <= j < k ==> !glob_match(self@[i as int], split_path(path@)[j]),
                decreases nc - k,
            {
                if self.patterns[i].matches_str(components[k].as_str()) {
                    assert(glob_match(self@[i as int], split_path(path@)[k as int]));
                    return true;
                }
                k = k + 1;
            }
            assert(!pattern_excludes(self@[i as int], path@));
            i = i + 1;
        }
        false
    }
}

} // verus!
