//! Exclusion globs: a candidate path is dropped as soon as one caller-given
//! glob matches it.  Compiling and matching a single glob is entrusted to the
//! globmatch crate; the fail-fast build and the short-circuit test over the
//! whole list are verified here.

use vstd::prelude::*;
use crate::errors::GlobConfigError;

verus! {

#[verifier::external_type_specification]
#[verifier::external_body]
pub struct ExGlob<'a>(globmatch::Glob<'a>);

/// The glob pattern a compiled matcher was built from (what `Glob::glob`
/// returns).
pub uninterp spec fn glob_source(g: globmatch::Glob) -> Seq<char>;

/// Whether a glob pattern matches a path (what `Glob::is_match` returns, a
/// function of the pattern and the path alone).
pub uninterp spec fn glob_matches(pattern: Seq<char>, path: Seq<char>) -> bool;

/// Whether a glob pattern compiles (what `Builder::build_glob` decides, a
/// function of the pattern text alone; an empty pattern never compiles).
pub uninterp spec fn glob_ok(pattern: Seq<char>) -> bool;

/// Relies on `globmatch::Builder::build_glob`: compiles one glob, succeeding
/// or failing as a function of the pattern text alone, and keeping that text;
/// an empty or malformed pattern is refused.
#[verifier::external_body]
fn glob_new<'a>(pattern: &'a str) -> (r: Result<globmatch::Glob<'a>, String>)
    ensures
        r is Ok <==> glob_ok(pattern@),
        r is Ok ==> glob_source(r->Ok_0) == pattern@,
        pattern@.len() == 0 ==> r is Err,
{
    globmatch::Builder::new(pattern).build_glob()
}

/// Relies on `globmatch::Glob::is_match`: whether the path matches the glob.
#[verifier::external_body]
fn glob_is_match(g: &globmatch::Glob, path: &str) -> (r: bool)
    ensures
        r == glob_matches(glob_source(*g), path@),
{
    g.is_match(std::path::Path::new(path))
}

/// A path is excluded iff some pattern of the list matches it.
pub open spec fn excluded_spec(patterns: Seq<Seq<char>>, path: Seq<char>) -> bool {
    exists|i: int| 0 <= i < patterns.len() && glob_matches(patterns[i], path)
}

/// The compiled exclusion globs, in the order the caller supplied them.
pub struct ExclusionSet<'a> {
    globs: Vec<globmatch::Glob<'a>>,
    patterns: Ghost<Seq<Seq<char>>>,
}

impl<'a> ExclusionSet<'a> {
    /// The exclusion patterns this set was built from.
    pub closed spec fn patterns(&self) -> Seq<Seq<char>> {
        self.patterns@
    }

    /// Each compiled glob was built from exactly the pattern at its index.
    pub closed spec fn wf(&self) -> bool {
        &&& self.globs@.len() == self.patterns@.len()
        &&& forall|i: int|
            0 <= i < self.globs@.len() ==> glob_source(#[trigger] self.globs@[i])
                == self.patterns@[i]
    }

    /// Compiles every exclusion pattern, failing fast on the first invalid
    /// one — before any file is walked.  It succeeds exactly when every
    /// pattern compiles; the error names the first that does not.
    pub fn build(patterns: &'a Vec<String>) -> (r: Result<ExclusionSet<'a>, GlobConfigError>)
        ensures
            r is Ok ==> r->Ok_0.wf() && r->Ok_0.patterns() == patterns.deep_view(),
            r is Ok <==> forall|k: int|
                0 <= k < patterns.deep_view().len() ==> glob_ok(#[trigger] patterns.deep_view()[k]),
            r is Err ==> {
                &&& r->Err_0.index < patterns@.len()
                &&& !glob_ok(patterns.deep_view()[r->Err_0.index as int])
                &&& forall|k: int|
                    0 <= k < r->Err_0.index ==> glob_ok(#[trigger] patterns.deep_view()[k])
            },
    {
        let ghost dv = patterns.deep_view();
        let n = patterns.len();
        let mut globs: Vec<globmatch::Glob<'a>> = Vec::new();
        let mut i: usize = 0;
        while i < n
            invariant
                i <= n == dv.len(),
                dv == patterns.deep_view(),
                globs@.len() == i,
                forall|k: int|
                    0 <= k < i ==> glob_source(#[trigger] globs@[k]) == dv[k],
                forall|k: int| 0 <= k < i ==> glob_ok(#[trigger] dv[k]),
            decreases n - i,
        {
            proof {
                assert(dv[i as int] == patterns@[i as int]@);
            }
            match glob_new(patterns[i].as_str()) {
                Ok(g) => {
                    globs.push(g);
                },
                Err(_) => {
                    return Err(GlobConfigError { index: i });
                },
            }
            i = i + 1;
        }
        let r = ExclusionSet { globs, patterns: Ghost(dv) };
        proof {
            assert(r.wf());
        }
        Ok(r)
    }

    /// Tests the path against every pattern in order, stopping at the first
    /// that matches.
    pub fn is_excluded(&self, path: &str) -> (r: bool)
        requires
            self.wf(),
        ensures
            r == excluded_spec(self.patterns(), path@),
    {
        let n = self.globs.len();
        let mut i: usize = 0;
        while i < n
            invariant
                self.wf(),
                i <= n == self.globs@.len(),
                forall|k: int| 0 <= k < i ==> !glob_matches(self.patterns()[k], path@),
            decreases n - i,
        {
            if glob_is_match(&self.globs[i], path) {
                return true;
            }
            i = i + 1;
        }
        false
    }
}

} // verus!
