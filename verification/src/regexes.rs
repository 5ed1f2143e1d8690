//! Compiled regular expressions of the `regex` crate, as the library uses them.
use regex::Regex;
use vstd::prelude::*;

verus! {

/// A compiled regular expression, opaque to the library.
#[verifier::external_type_specification]
#[verifier::external_body]
pub struct ExRegex(regex::Regex);

/// Whether `regex::Regex::new` accepts `pattern`.
pub uninterp spec fn pattern_compiles(pattern: Seq<char>) -> bool;

/// Whether the regex that `regex::Regex::new` makes of `pattern` matches somewhere in `text`.
pub uninterp spec fn pattern_accepts(pattern: Seq<char>, text: Seq<char>) -> bool;

/// The text that `regex` was compiled from, as `regex::Regex::as_str` gives it back.
pub uninterp spec fn regex_source(regex: Regex) -> Seq<char>;

/// Whether `regex::Regex::is_match` finds a match of `regex` anywhere in `text`.
pub uninterp spec fn regex_accepts(regex: Regex, text: Seq<char>) -> bool;

/// Whether a regex matches what the pattern that it was compiled from matches.
pub open spec fn is_plain(regex: Regex) -> bool {
    forall|text: Seq<char>| #[trigger]
        regex_accepts(regex, text) == pattern_accepts(regex_source(regex), text)
}

/// Calls `regex::Regex::new`: a pattern that the crate accepts gives a regex that remembers
/// that pattern and matches by it, any other gives `None`.
#[verifier::external_body]
pub(crate) fn compile_regex(pattern: &str) -> (regex: Option<Regex>)
    ensures
        regex is Some <==> pattern_compiles(pattern@),
        regex matches Some(compiled) ==> {
            &&& regex_source(compiled) == pattern@
            &&& forall|text: Seq<char>| #[trigger]
                regex_accepts(compiled, text) == pattern_accepts(pattern@, text)
        },
{
    Regex::new(pattern).ok()
}

/// Calls `regex::Regex::is_match`.
#[verifier::external_body]
pub(crate) fn regex_is_match(regex: &Regex, text: &str) -> (found: bool)
    ensures
        found == regex_accepts(*regex, text@),
{
    regex.is_match(text)
}

/// Calls `clone` of `regex::Regex`: the copy comes from the same text and matches the same.
#[verifier::external_body]
pub(crate) fn clone_regex(regex: &Regex) -> (copy: Regex)
    ensures
        regex_source(copy) == regex_source(*regex),
        forall|text: Seq<char>| #[trigger]
            regex_accepts(copy, text) == regex_accepts(*regex, text),
{
    regex.clone()
}

} // verus!
