//! Decisions of the word-list source: where to fetch from and when a
//! response counts as success.  The fetch itself is I/O and stays outside.

use vstd::prelude::*;
use crate::errors::FetchError;

verus! {

/// The directory that holds one word list per language identifier.
pub open spec fn base_url_spec() -> Seq<char> {
    "https://raw.githubusercontent.com/LDNOOBW/List-of-Dirty-Naughty-Obscene-and-Otherwise-Bad-Words/master"@
}

/// The location of the word list for one language: `{base_url}/{identifier}`.
pub open spec fn word_list_url_spec(language: Seq<char>) -> Seq<char> {
    base_url_spec() + "/"@ + language
}

/// Builds the URL of the word list for the given language identifier.
pub fn word_list_url(language: &str) -> (url: String)
    ensures
        url@ == word_list_url_spec(language@),
{
    let mut url = String::new();
    url.append("https://raw.githubusercontent.com/LDNOOBW/List-of-Dirty-Naughty-Obscene-and-Otherwise-Bad-Words/master");
    url.append("/");
    url.append(language);
    url
}

/// A fetch succeeds exactly on status 200; any other status is fatal.
pub fn check_status(status: u32) -> (r: Result<(), FetchError>)
    ensures
        r is Ok <==> status == 200,
        r is Err ==> r->Err_0 == FetchError::BadStatus(status),
{
    if status == 200 {
        Ok(())
    } else {
        Err(FetchError::BadStatus(status))
    }
}

} // verus!
