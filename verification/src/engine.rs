//! The regular-expression engine behind the rules.
//!
//! Everything in this module is taken on trust from the `regex` crate: the
//! two opaque types, a name for each result that only the engine can
//! compute, and one thin call per engine function.  The rest of the library
//! is proved against the contracts stated here.

use regex::Regex;
use regex::RegexBuilder;
use vstd::prelude::*;

verus! {

/// A compiled pattern of the `regex` crate.  Opaque: the library reads it
/// only through the calls below.
#[verifier::external_type_specification]
#[verifier::external_body]
pub struct ExRegex(regex::Regex);

/// The error of the `regex` crate for a pattern that does not compile.
#[verifier::external_type_specification]
#[verifier::external_body]
pub struct ExRegexError(regex::Error);

/// What `RegexBuilder::new(pattern).case_insensitive(flag).build()` returns.
pub uninterp spec fn regex_build(pattern: Seq<char>, case_insensitive: bool) -> Result<
    Regex,
    regex::Error,
>;

/// What `Regex::as_str` returns: the pattern text the matcher was built from.
pub uninterp spec fn regex_source(re: Regex) -> Seq<char>;

/// What `Regex::is_match` returns: whether the pattern matches anywhere in
/// the text.
pub uninterp spec fn regex_is_match(re: Regex, text: Seq<char>) -> bool;

/// What `Regex::find` returns: the byte span of the leftmost match, if any.
pub uninterp spec fn regex_find(re: Regex, text: Seq<char>) -> Option<(usize, usize)>;

/// What `Regex::find_iter` yields: the byte spans of the successive
/// non-overlapping matches, in order.
pub uninterp spec fn regex_find_all(re: Regex, text: Seq<char>) -> Seq<(usize, usize)>;

/// What the `Display` impl of `regex::Error` writes.
pub uninterp spec fn regex_error_text(err: regex::Error) -> Seq<char>;

/// The characters that `regex::escape` protects with a backslash.
pub open spec fn is_meta_character(c: char) -> bool {
    c == '\\' || c == '.' || c == '+' || c == '*' || c == '?' || c == '(' || c == ')' || c == '|'
        || c == '[' || c == ']' || c == '{' || c == '}' || c == '^' || c == '$' || c == '#' || c
        == '&' || c == '-' || c == '~'
}

/// A text with a backslash put before each meta character, so that the
/// engine reads it as a literal.
pub open spec fn escaped(text: Seq<char>) -> Seq<char>
    decreases text.len(),
{
    if text.len() == 0 {
        Seq::empty()
    } else if is_meta_character(text.last()) {
        escaped(text.drop_last()).push('\\').push(text.last())
    } else {
        escaped(text.drop_last()).push(text.last())
    }
}

/// Calls `regex::escape`.  The crate walks the characters of the text and
/// writes a backslash before each of its eighteen meta characters; the
/// contract states exactly that.
#[verifier::external_body]
pub(crate) fn regex_escape(text: &str) -> (out: String)
    ensures
        out@ == escaped(text@),
{
    regex::escape(text)
}

/// Calls `RegexBuilder::new`, `case_insensitive` and `build`.  The outcome
/// is a function of the pattern and the flag alone and is only named; of a
/// matcher that was built the contract adds what `Regex::as_str` documents,
/// that it keeps the pattern text it was given.
#[verifier::external_body]
pub(crate) fn regex_compile(pattern: &str, case_insensitive: bool) -> (r: Result<
    Regex,
    regex::Error,
>)
    ensures
        r == regex_build(pattern@, case_insensitive),
        r matches Ok(re) ==> regex_source(re) == pattern@,
{
    RegexBuilder::new(pattern).case_insensitive(case_insensitive).build()
}

/// Calls `Regex::as_str`, which hands back the pattern text that the
/// matcher was built from.
#[verifier::external_body]
pub(crate) fn regex_as_str(re: &Regex) -> (s: &str)
    ensures
        s@ == regex_source(*re),
{
    re.as_str()
}

/// Calls `Regex::is_match`.  The answer is only named.
#[verifier::external_body]
pub(crate) fn regex_matches(re: &Regex, text: &str) -> (b: bool)
    ensures
        b == regex_is_match(*re, text@),
{
    re.is_match(text)
}

/// Calls `Regex::find` and keeps the byte offsets of the match.  Beside the
/// name the contract states what the crate documents of the two calls
/// together: a first match exists exactly when `is_match` says so.
#[verifier::external_body]
pub(crate) fn regex_first_match(re: &Regex, text: &str) -> (m: Option<(usize, usize)>)
    ensures
        m == regex_find(*re, text@),
        m is Some <==> regex_is_match(*re, text@),
{
    re.find(text).map(|m| (m.start(), m.end()))
}

/// Calls `Regex::find_iter` and keeps the byte offsets of each match.  The
/// crate guarantees of every match that its start is not after its end and
/// that the span can be used to slice the text; the contract states the two
/// bounds that follow.
#[verifier::external_body]
pub(crate) fn regex_all_matches(re: &Regex, text: &str) -> (v: Vec<(usize, usize)>)
    ensures
        v@ == regex_find_all(*re, text@),
        forall|i: int| 0 <= i < v@.len() ==> (#[trigger] v@[i]).0 <= v@[i].1 && v@[i].1 <= text.len(),
{
    re.find_iter(text).map(|m| (m.start(), m.end())).collect()
}

/// Calls the `Clone` impl of `Regex`.  A clone shares the compiled program
/// and the pattern text of the matcher it was made from, so nothing the
/// library can ask tells the two apart.
#[verifier::external_body]
pub(crate) fn regex_clone(re: &Regex) -> (copy: Regex)
    ensures
        copy == *re,
{
    re.clone()
}

/// Calls the `Display` impl of `regex::Error` through `to_string`.
#[verifier::external_body]
pub(crate) fn regex_error_message(err: &regex::Error) -> (s: String)
    ensures
        s@ == regex_error_text(*err),
{
    err.to_string()
}

} // verus!
