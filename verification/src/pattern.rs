//! Regular expressions, as the `regex` crate matches them.
//!
//! What a pattern matches is not stated here: it is whatever `regex` finds.
//! The two searches are named, so that contracts can speak of their results.

use regex::Error as PatternError;
use regex::RegexBuilder;
use vstd::prelude::*;

verus! {

/// The error with which `regex` refuses a pattern. Nothing is known of what
/// it holds.
#[verifier::external_type_specification]
#[verifier::external_body]
pub struct ExPatternError(PatternError);

/// The capture groups of one match: for each group of the pattern, the
/// whole match being group 0, the text it matched, or `None` where the
/// group took no part in the match.
pub type Groups = Vec<Option<String>>;

/// What `Regex::captures` finds for `pattern` in `haystack`: `None` where
/// `regex` refuses the pattern, else the groups of the leftmost match, if
/// there is a match.
pub uninterp spec fn leftmost_match(pattern: Seq<char>, ignore_case: bool, haystack: Seq<char>) -> Option<Option<Seq<Option<Seq<char>>>>>;

/// What `Regex::captures_iter` finds for `pattern` in `haystack`: `None`
/// where `regex` refuses the pattern, else the groups of each of the
/// successive matches, which do not overlap, from left to right.
pub uninterp spec fn successive_matches(pattern: Seq<char>, ignore_case: bool, haystack: Seq<char>) -> Option<Seq<Seq<Option<Seq<char>>>>>;

/// Compiles `pattern` with `RegexBuilder` (`new`, `case_insensitive`,
/// `build`) and searches `haystack` with `Regex::captures`; the groups are
/// read with `Captures::iter` and `Match::as_str`. The contract names the
/// result and claims that the search is a function of the pattern, the flag
/// and the haystack; an error comes back exactly where the pattern is
/// refused.
#[verifier::external_body]
pub(crate) fn captures(pattern: &str, ignore_case: bool, haystack: &str) -> (found: Result<
    Option<Groups>,
    PatternError,
>)
    ensures
        match found {
            Ok(groups) => leftmost_match(pattern@, ignore_case, haystack@) == Some(
                groups.deep_view(),
            ),
            Err(_) => leftmost_match(pattern@, ignore_case, haystack@) is None,
        },
{
    let regex = RegexBuilder::new(pattern).case_insensitive(ignore_case).build()?;
    Ok(
        regex.captures(haystack).map(
            |c| c.iter().map(|group| group.map(|m| m.as_str().to_owned())).collect(),
        ),
    )
}

/// Compiles `pattern` with `RegexBuilder` (`new`, `case_insensitive`,
/// `build`) and searches `haystack` with `Regex::captures_iter`; the groups
/// of each match are read with `Captures::iter` and `Match::as_str`. The
/// contract names the result and claims that the search is a function of
/// the pattern, the flag and the haystack; an error comes back exactly
/// where the pattern is refused.
#[verifier::external_body]
pub(crate) fn captures_iter(pattern: &str, ignore_case: bool, haystack: &str) -> (found: Result<
    Vec<Groups>,
    PatternError,
>)
    ensures
        match found {
            Ok(matches) => successive_matches(pattern@, ignore_case, haystack@) == Some(
                matches.deep_view(),
            ),
            Err(_) => successive_matches(pattern@, ignore_case, haystack@) is None,
        },
{
    let regex = RegexBuilder::new(pattern).case_insensitive(ignore_case).build()?;
    Ok(
        regex.captures_iter(haystack).map(
            |c| c.iter().map(|group| group.map(|m| m.as_str().to_owned())).collect(),
        ).collect(),
    )
}

} // verus!
