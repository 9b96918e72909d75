//! Regular expressions, as the `regex` crate compiles and runs them.
//!
//! Nothing here is proved: the contracts below record what the crate's
//! documentation says of `Regex::new`, `Regex::is_match` and
//! `Regex::captures`, over names for their results.

use crate::text::opt_text;
use regex::Regex;
use vstd::prelude::*;

verus! {

/// `regex::Regex`, a compiled regular expression: opaque here.
#[verifier::external_type_specification]
#[verifier::external_body]
pub struct ExRegex(regex::Regex);

/// Whether `Regex::new` accepts `pattern`.
pub uninterp spec fn regex_valid(pattern: Seq<char>) -> bool;

/// The pattern that `re` was compiled from: what `Regex::as_str` shows.
pub uninterp spec fn regex_source(re: Regex) -> Seq<char>;

/// Whether the regular expression written as `pattern` matches anywhere in
/// `haystack`.
pub uninterp spec fn regex_matches(pattern: Seq<char>, haystack: Seq<char>) -> bool;

/// `regex::Regex::new`: whether a pattern compiles depends on the pattern
/// alone, and a compiled expression remembers the pattern it came from. The
/// crate's account of a pattern that does not compile is dropped.
#[verifier::external_body]
pub(crate) fn compile(pattern: &str) -> (compiled: Option<Regex>)
    ensures
        compiled is Some == regex_valid(pattern@),
        compiled matches Some(regex) ==> regex_source(regex) == pattern@,
{
    Regex::new(pattern).ok()
}

/// `regex::Regex::is_match`: true if and only if the expression matches
/// somewhere in the haystack, which depends on the pattern and the haystack
/// alone.
pub assume_specification[ regex::Regex::is_match ](re: &Regex, haystack: &str) -> (found: bool)
    ensures
        found == regex_matches(regex_source(*re), haystack@),
;

/// The text that capture group `index` of the expression written as
/// `pattern` holds at its leftmost match in `haystack`; `None` where there
/// is no match, no such group, or the group took no part in the match.
pub uninterp spec fn regex_group(pattern: Seq<char>, haystack: Seq<char>, index: int) -> Option<
    Seq<char>,
>;

/// `regex::Regex::captures`, then `Captures::get` and `Match::as_str`: the
/// text of one capture group at the leftmost match.
#[verifier::external_body]
pub(crate) fn capture(re: &Regex, haystack: &str, index: usize) -> (text: Option<String>)
    ensures
        opt_text(text) == regex_group(regex_source(*re), haystack@, index as int),
{
    let found = re.captures(haystack)?;
    let group = found.get(index)?;
    Some(group.as_str().to_owned())
}

} // verus!
