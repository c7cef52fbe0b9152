//! Regular expressions, by way of the `regex` crate.
//!
//! What a pattern matches is not defined here: each search is named by a
//! specification function of the pattern's text and the searched text, and
//! the functions below are believed to return what those names stand for.

use vstd::prelude::*;
use crate::text::option_text;

verus! {

#[verifier::external_type_specification]
#[verifier::external_body]
pub struct ExRegex(regex::Regex);

/// The report that `regex::Regex::new` gives for a pattern it does not accept,
/// `None` for a pattern that compiles.
pub uninterp spec fn regex_compile_error(pattern: Seq<char>) -> Option<Seq<char>>;

/// In the leftmost match of `pattern` in `text`, the part of the text that the
/// first capture group matched. `None` if nothing matches or the group took no
/// part in the match.
pub uninterp spec fn regex_first_group(pattern: Seq<char>, text: Seq<char>) -> Option<Seq<char>>;

/// The successive non-overlapping matches of `pattern` in `text`: each with
/// the matched text and the byte offset at which it starts.
pub uninterp spec fn regex_matches(pattern: Seq<char>, text: Seq<char>) -> Seq<(Seq<char>, int)>;

/// `text` with every non-overlapping match of `pattern` replaced by the
/// expansion of `replacement`, in which `$name` refers to a capture group.
pub uninterp spec fn regex_replace_all(
    pattern: Seq<char>,
    text: Seq<char>,
    replacement: Seq<char>,
) -> Seq<char>;

/// Whether `pattern` matches anywhere in `text`.
pub uninterp spec fn regex_is_match(pattern: Seq<char>, text: Seq<char>) -> bool;

/// A pattern that has been compiled. Its view is the text it was compiled
/// from. Values are made by `compile` only, which keeps the compiled form
/// and the text together.
pub struct Pattern {
    source: String,
    compiled: regex::Regex,
}

impl View for Pattern {
    type V = Seq<char>;

    closed spec fn view(&self) -> Seq<char> {
        self.source@
    }
}

/// One match of a pattern in a text.
pub struct Found {
    /// The matched text.
    pub text: String,
    /// The byte offset of the match in the searched text.
    pub start: usize,
}

/// What a search found, as plain values.
pub open spec fn found_view(v: Seq<Found>) -> Seq<(Seq<char>, int)> {
    Seq::new(v.len(), |i: int| (v[i].text@, v[i].start as int))
}

/// `regex::Regex::new`. Believed: a pattern that compiles gives the compiled
/// pattern, whose view is the pattern's text; any other pattern gives the
/// compiler's report as the error.
#[verifier::external_body]
pub(crate) fn compile(pattern: &str) -> (r: Result<Pattern, String>)
    ensures
        match r {
            Ok(p) => regex_compile_error(pattern@) is None && p@ == pattern@,
            Err(e) => regex_compile_error(pattern@) == Some(e@),
        },
{
    match regex::Regex::new(pattern) {
        Ok(compiled) => Ok(Pattern { source: pattern.to_string(), compiled }),
        Err(e) => Err(e.to_string()),
    }
}

/// `Regex::captures`. Believed: the result is the text of the first capture
/// group in the leftmost match, if there is a match and the group took part
/// in it.
#[verifier::external_body]
pub(crate) fn first_group(pattern: &Pattern, text: &str) -> (r: Option<String>)
    ensures
        option_text(r) == regex_first_group(pattern@, text@),
{
    pattern.compiled.captures(text).and_then(|c| c.get(1)).map(|m| m.as_str().to_string())
}

/// `Regex::find_iter`. Believed: the result lists the matches in the order
/// in which they are found, each with its text and the byte offset of its
/// start.
#[verifier::external_body]
pub(crate) fn find_all(pattern: &Pattern, text: &str) -> (r: Vec<Found>)
    ensures
        found_view(r@) == regex_matches(pattern@, text@),
{
    pattern.compiled.find_iter(text).map(
        |m| Found { text: m.as_str().to_string(), start: m.start() },
    ).collect()
}

/// `Regex::replace_all`. Believed: the result is the text with every match
/// replaced by the expansion of the replacement.
#[verifier::external_body]
pub(crate) fn replace_all(pattern: &Pattern, text: &str, replacement: &str) -> (r: String)
    ensures
        r@ == regex_replace_all(pattern@, text@, replacement@),
{
    pattern.compiled.replace_all(text, replacement).into_owned()
}

/// `Regex::is_match`. Believed: the result says whether the pattern matches
/// anywhere in the text.
#[verifier::external_body]
pub(crate) fn is_match(pattern: &Pattern, text: &str) -> (r: bool)
    ensures
        r == regex_is_match(pattern@, text@),
{
    pattern.compiled.is_match(text)
}

} // verus!
