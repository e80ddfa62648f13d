//! The search for a pattern in a text, which the `regex` crate does.

use vstd::prelude::*;

verus! {

/// `regex::Error`, with which the `regex` crate refuses a pattern. Nothing
/// is known of what it holds.
#[verifier::external_type_specification]
#[verifier::external_body]
pub struct ExRegexError(regex::Error);

/// What the `regex` crate finds of `pattern` in `haystack`: for each match,
/// from left to right and none overlapping another, the text that capture
/// group `group` took, or `None` where the group took no part in the match
/// or the pattern has no such group. `None` as a whole where the crate
/// refuses the pattern.
pub uninterp spec fn regex_captures(pattern: Seq<char>, group: usize, haystack: Seq<char>) -> Option<
    Seq<Option<Seq<char>>>,
>;

/// Compiles `pattern` with `regex::Regex::new` and walks
/// `Regex::captures_iter` over `haystack`, taking from each match the text
/// of `Captures::get(group)`. Nothing is proved of the search: the contract
/// only gives its result the name `regex_captures`, the error of a refused
/// pattern standing for `None`.
#[verifier::external_body]
pub(crate) fn captures(pattern: &str, group: usize, haystack: &str) -> (found: Result<
    Vec<Option<String>>,
    regex::Error,
>)
    ensures
        match found {
            Ok(groups) => regex_captures(pattern@, group, haystack@) == Some(groups.deep_view()),
            Err(_) => regex_captures(pattern@, group, haystack@) is None,
        },
{
    let regex = regex::Regex::new(pattern)?;
    let mut groups: Vec<Option<String>> = Vec::new();
    for matched in regex.captures_iter(haystack) {
        groups.push(matched.get(group).map(|m| m.as_str().to_string()));
    }
    Ok(groups)
}

} // verus!
