//! The pattern of a comment line and the regular expression engine behind
//! it. The engine is the `regex` crate; what is stated of it here is
//! believed, not proved.

use regex::Regex;
use vstd::prelude::*;

verus! {

/// The regular expression of a comment line: two slashes, an at sign, a hash
/// or two hyphens, anchored at the start of the text.
pub const COMMENT_PATTERN: &'static str = "^(//|@|#|--)";

/// Whether `s` starts with one of the comment markers `//`, `@`, `#`, `--`.
pub open spec fn starts_with_comment_marker(s: Seq<char>) -> bool {
    ||| s.len() >= 1 && (s[0] == '@' || s[0] == '#')
    ||| s.len() >= 2 && s[0] == '/' && s[1] == '/'
    ||| s.len() >= 2 && s[0] == '-' && s[1] == '-'
}

/// `regex::Regex`, a compiled regular expression. The verifier sees nothing
/// inside it.
#[verifier::external_type_specification]
#[verifier::external_body]
pub struct ExRegex(Regex);

/// `regex::Error`, why a pattern did not compile. The verifier sees nothing
/// inside it.
#[verifier::external_type_specification]
#[verifier::external_body]
pub struct ExRegexError(regex::Error);

/// The pattern text that a compiled expression was built from, as
/// `regex::Regex::as_str` gives it back.
pub uninterp spec fn regex_pattern(re: Regex) -> Seq<char>;

/// `regex::Regex::new`. Trusted: a compiled expression remembers the pattern
/// it was given, and [`COMMENT_PATTERN`] is a pattern that compiles.
#[verifier::external_body]
pub(crate) fn compile(pattern: &str) -> (r: Result<Regex, regex::Error>)
    ensures
        r matches Ok(re) ==> regex_pattern(re) == pattern@,
        pattern@ == COMMENT_PATTERN@ ==> r is Ok,
{
    Regex::new(pattern)
}

/// `regex::Regex::is_match`, for an expression compiled from
/// [`COMMENT_PATTERN`]. Trusted: that pattern is an alternation of four
/// literals behind `^`, which without the multi-line flag matches only at the
/// start of the haystack, so there is a match iff `text` starts with one of
/// the four.
#[verifier::external_body]
pub(crate) fn is_match(re: &Regex, text: &str) -> (r: bool)
    requires
        regex_pattern(*re) == COMMENT_PATTERN@,
    ensures
        r == starts_with_comment_marker(text@),
{
    re.is_match(text)
}

} // verus!
