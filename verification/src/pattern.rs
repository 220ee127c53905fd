//! The compiled search pattern. A pattern is validated once per
//! operation; matching against a line or an extracted string is a
//! function of the pattern text and the candidate text alone.
use vstd::prelude::*;

verus! {

#[verifier::external_type_specification]
#[verifier::external_body]
pub struct ExRegex(regex::Regex);

/// Whether a pattern is a syntactically valid regular expression.
pub uninterp spec fn regex_valid(pattern: Seq<char>) -> bool;

/// The pattern text a compiled matcher holds.
pub uninterp spec fn regex_source(re: regex::Regex) -> Seq<char>;

/// Whether a pattern matches anywhere in a text.
pub uninterp spec fn regex_match(pattern: Seq<char>, text: Seq<char>) -> bool;

/// The literal-matching pattern derived from a text.
pub uninterp spec fn regex_escaped(text: Seq<char>) -> Seq<char>;

/// Relies on regex::Regex::new: compilation succeeds exactly on the
/// valid patterns, and the compiled matcher holds the given pattern
/// text (regex::Regex::as_str returns it unchanged).
#[verifier::external_body]
pub(crate) fn regex_new(pattern: &str) -> (r: Option<regex::Regex>)
    ensures
        r is Some <==> regex_valid(pattern@),
        r is Some ==> regex_source(r->0) == pattern@,
{
    regex::Regex::new(pattern).ok()
}

/// Relies on regex::Regex::is_match: true when the pattern matches
/// anywhere in the text, a function of the held pattern and the text.
#[verifier::external_body]
pub(crate) fn regex_is_match(re: &regex::Regex, text: &Vec<char>) -> (r: bool)
    ensures
        r == regex_match(regex_source(*re), text@),
{
    let s: String = text.iter().collect();
    re.is_match(&s)
}

/// Relies on regex::escape: the escaped form of a text, a pattern that
/// matches that text literally; a function of the text alone.
#[verifier::external_body]
pub(crate) fn regex_escape(text: &str) -> (r: String)
    ensures
        r@ == regex_escaped(text@),
{
    regex::escape(text)
}

} // verus!
