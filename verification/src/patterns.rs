//! Regular expressions, through the `regex` crate.
//!
//! What a regex does to a string takes pages to state, so its results are
//! named: the library's contracts speak of `regex_replaced`, `regex_found` and
//! `regex_captures`, applied to the pattern's source text.
use vstd::prelude::*;

verus! {

#[verifier::external_type_specification]
#[verifier::external_body]
pub struct ExRegex(regex::Regex);

/// Whether `regex::Regex::new` accepts the pattern.
pub uninterp spec fn regex_compiles(pattern: Seq<char>) -> bool;

/// `Regex::replace_all(text, rep)` of the regex compiled from `pattern`.
pub uninterp spec fn regex_replaced(pattern: Seq<char>, text: Seq<char>, rep: Seq<char>) -> Seq<
    char,
>;

/// `Regex::find(text)` of the regex compiled from `pattern`: the matched text
/// and the text after the match.
pub uninterp spec fn regex_found(pattern: Seq<char>, text: Seq<char>) -> Option<
    (Seq<char>, Seq<char>),
>;

/// `Regex::captures(text)` of the regex compiled from `pattern`: for the
/// leftmost match, each group's text (group 0 is the whole match).
pub uninterp spec fn regex_captures(pattern: Seq<char>, text: Seq<char>) -> Option<
    Seq<Option<Seq<char>>>,
>;

/// The view of an optional string.
pub open spec fn opt_view(g: Option<String>) -> Option<Seq<char>> {
    match g {
        Some(s) => Some(s@),
        None => None,
    }
}

/// A compiled regex together with its source text.
pub struct Pattern {
    re: regex::Regex,
    source: String,
}

impl Pattern {
    pub closed spec fn source(&self) -> Seq<char> {
        self.source@
    }
}

/// Calls `regex::Regex::new`: `Some` exactly when the pattern compiles
/// (`regex_compiles`), keeping the pattern's text beside the regex.
#[verifier::external_body]
pub(crate) fn compile(pattern: &str) -> (r: Option<Pattern>)
    ensures
        r is Some <==> regex_compiles(pattern@),
        r matches Some(p) ==> p.source() == pattern@,
{
    match regex::Regex::new(pattern) {
        Ok(re) => Some(Pattern { re, source: pattern.to_string() }),
        Err(_) => None,
    }
}

/// Calls `Regex::replace_all`; the result is named `regex_replaced`.
#[verifier::external_body]
pub(crate) fn replace_all(p: &Pattern, text: &str, rep: &str) -> (r: String)
    ensures
        r@ == regex_replaced(p.source(), text@, rep@),
{
    p.re.replace_all(text, rep).into_owned()
}

/// Calls `Regex::find`; the result is named `regex_found`. The match is a
/// piece of `text`: the text is some prefix, then the match, then the rest.
#[verifier::external_body]
pub(crate) fn find(p: &Pattern, text: &str) -> (r: Option<(String, String)>)
    ensures
        r matches Some(m) ==> regex_found(p.source(), text@) == Some((m.0@, m.1@)) && exists|
            pre: Seq<char>,
        | text@ == pre + m.0@ + m.1@,
        r is None ==> regex_found(p.source(), text@) is None,
{
    p.re.find(text).map(|m| (m.as_str().to_string(), text[m.end()..].to_string()))
}

/// Calls `Regex::captures`; the result is named `regex_captures`.
#[verifier::external_body]
pub(crate) fn captures(p: &Pattern, text: &str) -> (r: Option<Vec<Option<String>>>)
    ensures
        r matches Some(groups) ==> regex_captures(p.source(), text@) == Some(
            groups@.map_values(|g: Option<String>| opt_view(g)),
        ),
        r is None ==> regex_captures(p.source(), text@) is None,
{
    p.re.captures(text).map(|c| c.iter().map(|g| g.map(|m| m.as_str().to_string())).collect())
}

} // verus!
