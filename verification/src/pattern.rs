//! Pattern matching over text, done by the `regex` crate.

use vstd::prelude::*;
use regex::Regex;

verus! {

/// The error with which `regex` refuses a pattern.
#[verifier::external_type_specification]
#[verifier::external_body]
pub struct ExPatternError(regex::Error);

/// Whether `regex::Regex::new` accepts `pattern`: the pattern is well
/// formed and the regex built from it is within the size that `regex` allows.
pub uninterp spec fn regex_accepts(pattern: Seq<char>) -> bool;

/// The capture groups of every match of `pattern` in `haystack`, as
/// `regex::Regex::captures_iter` yields them for the regex that
/// `regex::Regex::new` builds from `pattern`: one entry for each match, from
/// left to right and without overlap; in each entry one item for each group
/// of the pattern, group 0 (the whole match) first, holding the text that the
/// group matched, or `None` where the group took no part in the match.
pub uninterp spec fn regex_captures(pattern: Seq<char>, haystack: Seq<char>) -> Seq<
    Seq<Option<Seq<char>>>,
>;

/// Compiles `pattern` with `regex::Regex::new` and collects what
/// `Regex::captures_iter` yields on `haystack`.
///
/// Nothing is proved of this function.  Its contract claims that the result
/// is `Ok` exactly where `Regex::new` accepts the pattern, and that the
/// groups handed back are then the ones that `regex` found, each copied as
/// text, in the order in which `regex` gave them.  Where the pattern is not
/// accepted, the error of `Regex::new` is handed back.
#[verifier::external_body]
pub(crate) fn captures_of(pattern: &str, haystack: &str) -> (r: Result<
    Vec<Vec<Option<String>>>,
    regex::Error,
>)
    ensures
        r is Ok <==> regex_accepts(pattern@),
        r matches Ok(found) ==> found.deep_view() == regex_captures(pattern@, haystack@),
{
    let re = Regex::new(pattern)?;
    let found = re.captures_iter(haystack);
    Ok(found.map(|c| c.iter().map(|m| m.map(|m| m.as_str().to_owned())).collect()).collect())
}

} // verus!
