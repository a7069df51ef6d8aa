//! URL validation. A navigate command rejects a malformed URL string before it
//! touches any surface; whether a string is well formed is decided by the
//! `url` crate's WHATWG parser.

use vstd::prelude::*;

verus! {

/// Whether a string parses as an absolute URL under WHATWG URL parsing as the
/// `url` crate implements it. A function of the characters alone.
pub uninterp spec fn url_well_formed(s: Seq<char>) -> bool;

/// Relies on url::Url::parse: it parses an absolute URL from the string, or
/// reports a parse error, deterministically on the input alone. This reports
/// whether parsing succeeds.
#[verifier::external_body]
pub(crate) fn url_is_valid(s: &str) -> (r: bool)
    ensures
        r == url_well_formed(s@),
{
    url::Url::parse(s).is_ok()
}

} // verus!
