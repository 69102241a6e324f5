//! Pattern search over text, delegated to the `regex` crate.
//!
//! Nothing here is proved about how a pattern matches: the outcome of each
//! search is given a name, and the rest of the crate reasons from that name.

use vstd::prelude::*;
use crate::text::has_infix;

verus! {

#[verifier::external_type_specification]
#[verifier::external_body]
pub struct ExPatternError(regex::Error);

/// Whether `regex::Regex::new` compiles `pattern`.
pub uninterp spec fn pattern_accepted(pattern: Seq<char>) -> bool;

/// What `regex::Regex::captures` finds for `pattern` in `haystack`: `None`
/// when nothing matches, otherwise the text of the first capture group in
/// the leftmost match, or `Some(None)` when that group took no part in it.
pub uninterp spec fn first_capture(pattern: Seq<char>, haystack: Seq<char>) -> Option<
    Option<Seq<char>>,
>;

/// What `regex::Regex::captures_iter` yields for `pattern` in `haystack`:
/// one entry per successive non-overlapping match, holding the text of the
/// first capture group, or `None` when that group took no part in the match.
pub uninterp spec fn all_captures(pattern: Seq<char>, haystack: Seq<char>) -> Seq<
    Option<Seq<char>>,
>;

/// Every captured text is a contiguous part of `haystack`.
pub open spec fn captures_within(found: Seq<Option<Seq<char>>>, haystack: Seq<char>) -> bool {
    forall|i: int|
        0 <= i < found.len() ==> (#[trigger] found[i] matches Some(text) ==> has_infix(
            haystack,
            text,
        ))
}

/// Compiles `pattern` with `regex::Regex::new` and runs
/// `regex::Regex::captures` on `haystack`, reading group 1 with
/// `regex::Captures::get` and `regex::Match::as_str`.
///
/// Trusted: the call fails exactly when the pattern is not accepted, its
/// outcome is the named one, and a captured text is cut out of `haystack`.
#[verifier::external_body]
pub(crate) fn search_first(pattern: &str, haystack: &str) -> (found: Result<
    Option<Option<String>>,
    regex::Error,
>)
    ensures
        found is Ok <==> pattern_accepted(pattern@),
        found matches Ok(hit) ==> hit.deep_view() == first_capture(pattern@, haystack@),
        found matches Ok(Some(Some(text))) ==> has_infix(haystack@, text@),
{
    let re = regex::Regex::new(pattern)?;
    Ok(re.captures(haystack).map(|caps| caps.get(1).map(|m| m.as_str().to_string())))
}

/// Compiles `pattern` with `regex::Regex::new` and walks
/// `regex::Regex::captures_iter` over `haystack`, reading group 1 of each
/// match with `regex::Captures::get` and `regex::Match::as_str`.
///
/// Trusted: the call fails exactly when the pattern is not accepted, its
/// outcome is the named one, and each captured text is cut out of `haystack`.
#[verifier::external_body]
pub(crate) fn search_all(pattern: &str, haystack: &str) -> (found: Result<
    Vec<Option<String>>,
    regex::Error,
>)
    ensures
        found is Ok <==> pattern_accepted(pattern@),
        found matches Ok(hits) ==> hits.deep_view() == all_captures(pattern@, haystack@),
        found matches Ok(hits) ==> captures_within(hits.deep_view(), haystack@),
{
    let re = regex::Regex::new(pattern)?;
    Ok(re.captures_iter(haystack).map(|caps| caps.get(1).map(|m| m.as_str().to_string())).collect())
}

} // verus!
