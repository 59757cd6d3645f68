//! Verified core of a bad-word scanner.
//!
//! The library covers the whole matching pipeline: turning a fetched word
//! list into words, building one alternation pattern with word-boundary
//! semantics, filtering candidate paths through exclusion globs, and scanning
//! file contents one by one until the first match.  Network and file reads
//! stay outside; the library decides what to do with what they return.

pub mod errors;
pub mod globs;
pub mod pattern;
pub mod scanner;
pub mod source;
pub mod words;

use vstd::prelude::*;
use crate::errors::{FetchError, PatternBuildError, SetupError};
use crate::globs::{glob_ok, ExclusionSet};
use crate::pattern::{pattern_spec, regex_ok, BadWordPattern};
use crate::scanner::Scanner;
use crate::source::check_status;
use crate::words::{lossy_decode, parse_fetched_list, words_of};

verus! {

/// The whole setup phase in one step: gate the fetch outcome on status 200,
/// parse the fetched bytes into words, compile the pattern, compile the
/// exclusion globs.  Each failure is fatal and aborts the run before any
/// file is scanned; only a returned scanner ever examines a file.
pub fn setup<'a>(status: u32, body: &[u8], excludes: &'a Vec<String>) -> (r: Result<
    Scanner<'a>,
    SetupError,
>)
    ensures
        status != 200 ==> r == Err::<Scanner<'a>, SetupError>(
            SetupError::Fetch(FetchError::BadStatus(status)),
        ),
        status == 200 && words_of(lossy_decode(body@)).len() == 0 ==> r == Err::<
            Scanner<'a>,
            SetupError,
        >(SetupError::Pattern(PatternBuildError::EmptyWordList)),
        r is Ok ==> {
            &&& status == 200
            &&& r->Ok_0.wf()
            &&& r->Ok_0.words() == words_of(lossy_decode(body@))
            &&& r->Ok_0.exclusions() == excludes.deep_view()
        },
        r is Ok <==> {
            &&& status == 200
            &&& words_of(lossy_decode(body@)).len() > 0
            &&& regex_ok(pattern_spec(words_of(lossy_decode(body@))))
            &&& forall|k: int|
                0 <= k < excludes.deep_view().len() ==> glob_ok(#[trigger] excludes.deep_view()[k])
        },
        r matches Err(SetupError::Glob(e)) ==> e.index < excludes@.len(),
        r matches Err(SetupError::Fetch(e)) ==> status != 200 && e == FetchError::BadStatus(
            status,
        ),
        r == Err::<Scanner<'a>, SetupError>(SetupError::Pattern(PatternBuildError::EmptyWordList))
            ==> words_of(lossy_decode(body@)).len() == 0,
{
    match check_status(status) {
        Err(e) => {
            return Err(SetupError::Fetch(e));
        },
        Ok(()) => {},
    }
    let words = parse_fetched_list(body);
    proof {
        assert(words@.len() == words.deep_view().len());
    }
    let pattern = match BadWordPattern::build(&words) {
        Ok(p) => p,
        Err(e) => {
            return Err(SetupError::Pattern(e));
        },
    };
    let exclusions = match ExclusionSet::build(excludes) {
        Ok(x) => x,
        Err(e) => {
            return Err(SetupError::Glob(e));
        },
    };
    Ok(Scanner::new(pattern, exclusions))
}

} // verus!
