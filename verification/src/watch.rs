//! Filesystem-watch descriptors and their path filter.
//!
//! A watch names paths to observe plus two glob sets: `included` force-keeps
//! matching paths, `exclude` drops them, and a built-in exclusion list
//! (dotfiles, `build*`/`target*`, `*.o`) applies where no explicit rule
//! speaks.

use vstd::prelude::*;

use crate::globset::{
    default_exclude_globs, glob_set_matches, spec_default_exclude, GlobSet,
};

verus! {

/// Default recursion depth of a directory walk.
pub const DEFAULT_MAX_DEPTH: usize = 4;

/// A filesystem watch: paths to observe and the filter over event paths.
pub struct Watch {
    /// excluded paths globbing patterns
    pub exclude: Option<GlobSet>,
    /// force-included paths globbing patterns
    pub included: Option<GlobSet>,
    /// paths to watch
    pub paths: Vec<String>,
    /// maximum recursion depth
    pub max_depth: usize,
}

/// Whether the built-in exclusion list matches `path`.
pub open spec fn spec_default_excluded(path: Seq<char>) -> bool {
    glob_set_matches(spec_default_exclude(), path)
}

/// The watch filter: a path is excluded iff `included` does not match it
/// and either `exclude` or the built-in exclusion list does.
pub open spec fn spec_is_excluded(w: &Watch, path: Seq<char>) -> bool {
    let inc = match w.included {
        Some(g) => glob_set_matches(g.patterns(), path),
        None => false,
    };
    let exc = match w.exclude {
        Some(g) => glob_set_matches(g.patterns(), path),
        None => false,
    };
    !inc && (exc || spec_default_excluded(path))
}

impl Watch {
    /// A watch of nothing, with the default depth and no explicit filters.
    pub fn new() -> (r: Watch)
        ensures
            r.exclude is None,
            r.included is None,
            r.paths@ == Seq::<String>::empty(),
            r.max_depth == DEFAULT_MAX_DEPTH,
    {
        Watch { exclude: None, included: None, paths: Vec::new(), max_depth: DEFAULT_MAX_DEPTH }
    }

    /// Add a path to watch.
    pub fn add(&mut self, path: &str)
        ensures
            final(self).paths@.len() == old(self).paths@.len() + 1,
            final(self).paths@.last()@ == path@,
            forall|i: int|
                0 <= i < old(self).paths@.len() ==> final(self).paths@[i] == old(self).paths@[i],
            final(self).exclude == old(self).exclude,
            final(self).included == old(self).included,
            final(self).max_depth == old(self).max_depth,
    {
        self.paths.push(path.to_owned());
    }

    /// Decide whether a filesystem event on `path` is filtered out: the
    /// `included` set always wins, then the explicit `exclude` set and the
    /// built-in exclusion list reject the path.
    pub fn is_excluded(&self, path: &str) -> (r: bool)
        ensures
            r == spec_is_excluded(self, path@),
    {
        let included = match &self.included {
            Some(g) => g.is_match(path),
            None => false,
        };
        if included {
            return false;
        }
        let excluded = match &self.exclude {
            Some(g) => g.is_match(path),
            None => false,
        };
        if excluded {
            return true;
        }
        let defaults = GlobSet::from_globs(default_exclude_globs());
        proof {
            assert(defaults.patterns() =~= spec_default_exclude());
        }
        defaults.is_match(path)
    }
}

impl Default for Watch {
    /// Same as `Watch::new`.
    fn default() -> (r: Watch)
        ensures
            r.exclude is None,
            r.included is None,
            r.paths@ == Seq::<String>::empty(),
            r.max_depth == DEFAULT_MAX_DEPTH,
    {
        Watch::new()
    }
}

/// An explicitly included path is never excluded, whatever the explicit or
/// built-in exclusions say of it.
pub proof fn lemma_include_wins(w: &Watch, path: Seq<char>)
    requires
        w.included is Some,
        glob_set_matches(w.included.unwrap().patterns(), path),
    ensures
        !spec_is_excluded(w, path),
{
}

} // verus!
