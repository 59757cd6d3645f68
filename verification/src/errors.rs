//! The fatal setup errors: everything that aborts a run before scanning.

use vstd::prelude::*;

verus! {

/// Fetching the word list failed: either the transport itself, or the
/// response carried a status other than 200.
#[derive(Debug, PartialEq, Eq, Structural, Clone, Copy)]
pub enum FetchError {
    Transport,
    BadStatus(u32),
}

/// The combined word pattern could not be built: either no usable word was
/// left after parsing, or the pattern did not compile.
#[derive(Debug, PartialEq, Eq, Structural, Clone, Copy)]
pub enum PatternBuildError {
    EmptyWordList,
    CompileFailed,
}

/// A caller-supplied exclusion glob is invalid; raised before any walking.
#[derive(Debug, PartialEq, Eq, Structural, Clone, Copy)]
pub struct GlobConfigError {
    /// Index of the offending pattern in the list the caller supplied.
    pub index: usize,
}

/// Any of the fatal setup failures: each aborts the whole run before any
/// file is scanned.
#[derive(Debug, PartialEq, Eq, Structural, Clone, Copy)]
pub enum SetupError {
    Fetch(FetchError),
    Pattern(PatternBuildError),
    Glob(GlobConfigError),
}

} // verus!
