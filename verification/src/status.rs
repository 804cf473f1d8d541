//! Reason phrases of HTTP status codes come from the `reqwest` crate; this
//! module is the only place that calls it.

use vstd::prelude::*;

verus! {

/// The reason phrase that the HTTP library holds for a status code, if it
/// holds one.
pub uninterp spec fn reason_phrase(status: u16) -> Option<Seq<char>>;

/// Looks `status` up with `reqwest::StatusCode::from_u16` and
/// `StatusCode::canonical_reason`.
///
/// Trusted: the phrase depends on the code alone. A code that the library
/// does not take as a status, or for which it knows no phrase, has none.
#[verifier::external_body]
pub(crate) fn canonical_reason(status: u16) -> (reason: Option<String>)
    ensures
        match reason {
            Some(phrase) => reason_phrase(status) == Some(phrase@),
            None => reason_phrase(status) is None,
        },
{
    let code = reqwest::StatusCode::from_u16(status).ok()?;
    code.canonical_reason().map(|phrase| phrase.to_string())
}

} // verus!
