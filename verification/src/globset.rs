//! Sets of glob patterns, matched through the `globset` crate.
//!
//! A compiled pattern is opaque; what a pattern matches is carried by the
//! uninterpreted relation `glob_matches`, which ties every answer to the
//! pattern text the matcher was compiled from.

use vstd::prelude::*;

verus! {

#[verifier::external_type_specification]
#[verifier::external_body]
pub struct ExGlobMatcher(globset::GlobMatcher);

/// Whether the glob pattern `pattern` matches the path `path`, as the
/// `globset` crate decides it.
pub uninterp spec fn glob_matches(pattern: Seq<char>, path: Seq<char>) -> bool;

/// Whether `pattern` is a valid glob, as the `globset` parser decides it:
/// a function of the pattern text alone.
pub uninterp spec fn glob_ok(pattern: Seq<char>) -> bool;

/// A pattern that could not be compiled.
#[derive(Debug, Clone, Copy, PartialEq, Eq, Structural)]
pub enum GlobError {
    /// the pattern text is not a valid glob
    InvalidPattern,
}

/// One glob pattern together with its compiled matcher.
///
/// The fields are private: every construction goes through `new`, so the
/// matcher is always the compilation of `pattern` and `is_match` may speak
/// of the pattern text.
pub struct GlobPattern {
    pattern: String,
    matcher: globset::GlobMatcher,
}

impl GlobPattern {
    /// The pattern text.
    pub closed spec fn pattern(&self) -> Seq<char> {
        self.pattern@
    }

    /// Compile a pattern. Relies on `globset::Glob::new` and
    /// `compile_matcher`: parsing succeeds exactly on the valid patterns —
    /// a deterministic function of the text — and the returned matcher
    /// matches exactly what the pattern describes.
    #[verifier::external_body]
    pub(crate) fn new(pattern: &str) -> (r: Result<GlobPattern, GlobError>)
        ensures
            r is Ok <==> glob_ok(pattern@),
            r is Ok ==> r.unwrap().pattern() == pattern@,
    {
        match globset::Glob::new(pattern) {
            Ok(glob) => Ok(GlobPattern { pattern: pattern.to_string(), matcher: glob.compile_matcher() }),
            Err(_) => Err(GlobError::InvalidPattern),
        }
    }

    /// Whether this pattern matches `path`. Relies on
    /// `globset::GlobMatcher::is_match`, with `new` guaranteeing that the
    /// matcher was compiled from the stored pattern text.
    #[verifier::external_body]
    pub(crate) fn is_match(&self, path: &str) -> (r: bool)
        ensures
            r == glob_matches(self.pattern(), path@),
    {
        self.matcher.is_match(path)
    }
}

/// The built-in exclusions applied to every watched path: dotfiles,
/// `build*`/`target*` directories at any depth, and object files.
pub open spec fn spec_default_exclude() -> Seq<Seq<char>> {
    seq![".*"@, "**/{build,target}*"@, "*.o"@]
}

/// Compile the built-in exclusion patterns. Relies on `globset::Glob::new`
/// accepting these three fixed patterns, which are valid globs.
#[verifier::external_body]
pub(crate) fn default_exclude_globs() -> (r: Vec<GlobPattern>)
    ensures
        r@.len() == 3,
        r@[0].pattern() == ".*"@,
        r@[1].pattern() == "**/{build,target}*"@,
        r@[2].pattern() == "*.o"@,
{
    let dots = globset::Glob::new(".*").expect("fixed pattern");
    let dirs = globset::Glob::new("**/{build,target}*").expect("fixed pattern");
    let objs = globset::Glob::new("*.o").expect("fixed pattern");
    vec![
        GlobPattern { pattern: ".*".to_string(), matcher: dots.compile_matcher() },
        GlobPattern { pattern: "**/{build,target}*".to_string(), matcher: dirs.compile_matcher() },
        GlobPattern { pattern: "*.o".to_string(), matcher: objs.compile_matcher() },
    ]
}

/// Whether any pattern of `pats` matches `path`.
pub open spec fn glob_set_matches(pats: Seq<Seq<char>>, path: Seq<char>) -> bool {
    exists|i: int| 0 <= i < pats.len() && glob_matches(#[trigger] pats[i], path)
}

/// A set of glob patterns; a path matches the set when it matches any of
/// them.
pub struct GlobSet {
    globs: Vec<GlobPattern>,
}

impl GlobSet {
    /// The pattern texts, in order.
    pub closed spec fn patterns(&self) -> Seq<Seq<char>> {
        self.globs@.map_values(|g: GlobPattern| g.pattern())
    }

    /// An empty set.
    pub fn new() -> (r: GlobSet)
        ensures
            r.patterns() == Seq::<Seq<char>>::empty(),
    {
        let r = GlobSet { globs: Vec::new() };
        proof {
            assert(r.patterns() =~= Seq::<Seq<char>>::empty());
        }
        r
    }

    /// Wrap already-compiled patterns.
    pub fn from_globs(globs: Vec<GlobPattern>) -> (r: GlobSet)
        ensures
            r.patterns() == globs@.map_values(|g: GlobPattern| g.pattern()),
    {
        GlobSet { globs }
    }

    /// Number of patterns in the set.
    pub fn len(&self) -> (r: usize)
        ensures
            r == self.patterns().len(),
    {
        self.globs.len()
    }

    /// Whether any pattern of the set matches `path`.
    pub fn is_match(&self, path: &str) -> (r: bool)
        ensures
            r == glob_set_matches(self.patterns(), path@),
    {
        let mut i: usize = 0;
        while i < self.globs.len()
            invariant
                i <= self.globs.len(),
                forall|j: int| 0 <= j < i ==> !glob_matches(#[trigger] self.patterns()[j], path@),
            decreases self.globs.len() - i,
        {
            if self.globs[i].is_match(path) {
                proof {
                    assert(self.patterns()[i as int] == self.globs@[i as int].pattern());
                }
                return true;
            }
            i += 1;
        }
        false
    }

    /// Compile `pattern` and add it to the set: a valid pattern is always
    /// accepted and appended; an invalid one is always refused and leaves
    /// the set unchanged.
    pub fn add(&mut self, pattern: &str) -> (r: Result<(), GlobError>)
        ensures
            r is Ok <==> glob_ok(pattern@),
            r is Ok ==> final(self).patterns() == old(self).patterns().push(pattern@),
            r is Err ==> final(self).patterns() == old(self).patterns(),
    {
        match GlobPattern::new(pattern) {
            Ok(glob) => {
                self.globs.push(glob);
                proof {
                    assert(self.patterns() =~= old(self).patterns().push(pattern@));
                }
                Ok(())
            },
            Err(e) => Err(e),
        }
    }
}

} // verus!
