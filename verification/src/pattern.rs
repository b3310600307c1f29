//! Compiled path patterns, backed by the `regex` crate.
use vstd::prelude::*;

verus! {

/// The pattern text a compiled regex was built from, as
/// `regex::Regex::as_str` hands it back.
pub uninterp spec fn regex_source(re: regex::Regex) -> Seq<char>;

/// Whether `regex::Regex::new` accepts a pattern text; success is a fixed
/// property of the text alone.
pub uninterp spec fn regex_valid(pattern: Seq<char>) -> bool;

/// What `regex::Regex::is_match` returns for a pattern text and a haystack:
/// a pure function of the two texts.
pub uninterp spec fn regex_accepts(pattern: Seq<char>, text: Seq<char>) -> bool;

#[verifier::external_type_specification]
#[verifier::external_body]
pub struct ExRegex(regex::Regex);

/// Relies on `regex::Regex::new`: compiling succeeds or fails on the pattern
/// text alone, and on success the regex's source is exactly that text.
#[verifier::external_body]
pub(crate) fn regex_new(pattern: &str) -> (r: Option<regex::Regex>)
    ensures
        r is Some <==> regex_valid(pattern@),
        r is Some ==> regex_source(r->0) == pattern@,
{
    match regex::Regex::new(pattern) {
        Ok(re) => Some(re),
        Err(_) => None,
    }
}

/// Relies on `regex::Regex::is_match`: whether the pattern matches anywhere
/// in the text, a pure function of the regex's source and the text.
#[verifier::external_body]
pub(crate) fn regex_is_match(re: &regex::Regex, text: &str) -> (b: bool)
    ensures
        b == regex_accepts(regex_source(*re), text@),
{
    re.is_match(text)
}

} // verus!
