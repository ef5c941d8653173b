//! Regular-expression matching, delegated to the `regex` crate.

use vstd::prelude::*;

verus! {

/// Whether `pattern` is a regular expression that the `regex` crate compiles under its default
/// settings and that, once compiled, matches somewhere in `haystack`.
pub uninterp spec fn regex_matches(pattern: Seq<char>, haystack: Seq<char>) -> bool;

/// Compiles `pattern` with `regex::Regex::new` and searches `haystack` with `Regex::is_match`.
///
/// Trusted: the result is taken to be `regex_matches` of the two texts. A pattern that the
/// crate refuses to compile matches nothing.
#[verifier::external_body]
pub(crate) fn regex_is_match(pattern: &str, haystack: &str) -> (matched: bool)
    ensures
        matched == regex_matches(pattern@, haystack@),
{
    match regex::Regex::new(pattern) {
        Ok(re) => re.is_match(haystack),
        Err(_) => false,
    }
}

} // verus!
