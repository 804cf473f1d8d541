//! Wildcard expressions are handed to the `regex` crate; this module is the
//! only place that calls it.

use crate::paths::texts;
use crate::text::is_substring;
use vstd::prelude::*;

verus! {

/// What the `regex` crate makes of `pattern` on `haystack`: its message
/// where the pattern does not compile, else the successive non-overlapping
/// matches from left to right.
pub uninterp spec fn pattern_search(pattern: Seq<char>, haystack: Seq<char>) -> Result<
    Seq<Seq<char>>,
    Seq<char>,
>;

/// Compiles `pattern` with `regex::Regex::new` and collects what
/// `Regex::find_iter` yields on `haystack`, each match as the text that
/// `Match::as_str` gives. Where the pattern does not compile, the error is
/// handed on as the message it displays.
///
/// Trusted: the outcome depends on the two arguments alone, and each match
/// is a contiguous part of the haystack.
#[verifier::external_body]
pub(crate) fn search_pattern(pattern: &str, haystack: &str) -> (outcome: Result<
    Vec<String>,
    String,
>)
    ensures
        pattern_search(pattern@, haystack@) == match outcome {
            Ok(found) => Ok::<Seq<Seq<char>>, Seq<char>>(texts(found@)),
            Err(message) => Err::<Seq<Seq<char>>, Seq<char>>(message@),
        },
        outcome matches Ok(found) ==> forall|i: int|
            0 <= i < found@.len() ==> is_substring(#[trigger] found@[i]@, haystack@),
{
    let compiled = match regex::Regex::new(pattern) {
        Ok(compiled) => compiled,
        Err(error) => return Err(error.to_string()),
    };
    let mut found: Vec<String> = Vec::new();
    for hit in compiled.find_iter(haystack) {
        found.push(hit.as_str().to_string());
    }
    Ok(found)
}

} // verus!
