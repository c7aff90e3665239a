//! Regular expressions.
use vstd::prelude::*;

verus! {

/// Whether the regular expression `pattern` matches somewhere in `haystack`.
/// `None` for a pattern that is no regular expression.
pub uninterp spec fn regex_matches(pattern: Seq<char>, haystack: Seq<char>) -> Option<bool>;

/// `Regex::new` and `Regex::is_match` of the crate `regex`: whether the pattern
/// matches somewhere in the haystack, or `None` where `Regex::new` refuses the
/// pattern. Both depend on their arguments alone.
#[verifier::external_body]
pub(crate) fn is_match(pattern: &str, haystack: &str) -> (r: Option<bool>)
    ensures
        r == regex_matches(pattern@, haystack@),
{
    regex::Regex::new(pattern).ok().map(|re| re.is_match(haystack))
}

} // verus!
