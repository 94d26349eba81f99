//! Trusted boundary to the `regex` crate.
//!
//! A compiled regular expression is opaque; its behaviour is captured by
//! uninterpreted names: the pattern it was built from, whether a pattern
//! compiles, and what the leftmost match of a pattern on a text is. All
//! of these depend on the pattern and text alone.

use vstd::prelude::*;

verus! {

#[verifier::external_type_specification]
#[verifier::external_body]
pub struct ExRegex(regex::Regex);

#[verifier::external_type_specification]
#[verifier::external_body]
pub struct ExRegexError(regex::Error);

/// The pattern text a compiled regular expression was built from.
pub uninterp spec fn re_pattern(re: regex::Regex) -> Seq<char>;

/// Whether `regex::Regex::new` accepts a pattern.
pub uninterp spec fn re_ok(pattern: Seq<char>) -> bool;

/// The leftmost match of `pattern` on `text`, as the triple of the whole
/// matched text, the text before the match, and the first capture group.
pub uninterp spec fn re_caps(pattern: Seq<char>, text: Seq<char>) -> Option<
    (Seq<char>, Seq<char>, Option<Seq<char>>),
>;

/// Whether `pattern` matches somewhere in `text`.
pub uninterp spec fn re_matches(pattern: Seq<char>, text: Seq<char>) -> bool;

/// Relies on regex::Regex::new: success depends on the pattern text alone,
/// and the compiled value keeps that pattern.
#[verifier::external_body]
pub fn re_new(pattern: &str) -> (r: Result<regex::Regex, regex::Error>)
    ensures
        r is Ok <==> re_ok(pattern@),
        r is Ok ==> re_pattern(r->Ok_0) == pattern@,
{
    regex::Regex::new(pattern)
}

/// Relies on regex::Regex::captures: the leftmost match is a function of
/// the pattern and the text alone; `get(0)` of a match is always present.
#[verifier::external_body]
pub fn re_captures_parts(re: &regex::Regex, text: &str) -> (r: Option<
    (String, String, Option<String>),
>)
    ensures
        match r {
            Some(parts) => re_caps(re_pattern(*re), text@) == Some(
                (
                    parts.0@,
                    parts.1@,
                    match parts.2 {
                        Some(g) => Some(g@),
                        None => None,
                    },
                ),
            ),
            None => re_caps(re_pattern(*re), text@) is None,
        },
{
    match re.captures(text) {
        Some(c) => {
            let whole = c.get(0).unwrap();
            let group = c.get(1).map(|m| m.as_str().to_string());
            Some((whole.as_str().to_string(), text[..whole.start()].to_string(), group))
        },
        None => None,
    }
}

/// Relies on regex::Regex::is_match: a function of the pattern and text.
#[verifier::external_body]
pub fn re_is_match(re: &regex::Regex, text: &str) -> (r: bool)
    ensures
        r == re_matches(re_pattern(*re), text@),
{
    re.is_match(text)
}

} // verus!
