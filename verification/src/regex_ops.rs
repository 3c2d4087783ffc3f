//! Calls into the `regex` and `unaccent` crates.
//!
//! The regular-expression engine and Unicode decomposition are not restated:
//! each call's result is named as a function of its arguments.
use vstd::prelude::*;

verus! {

/// Result of compiling `pattern` with `regex::Regex::new` and running
/// `Regex::replace_all(text, rep)` on it; `None` when the pattern does not compile.
pub uninterp spec fn regex_replace_all_result(pattern: Seq<char>, text: Seq<char>, rep: Seq<char>) -> Option<Seq<char>>;

/// Result of `Regex::new(pattern)` followed by `Regex::replace(text, rep)`,
/// which replaces the leftmost match only; `None` when the pattern does not compile.
pub uninterp spec fn regex_replace_first_result(pattern: Seq<char>, text: Seq<char>, rep: Seq<char>) -> Option<Seq<char>>;

/// Result of `Regex::new(pattern)` followed by `Regex::is_match(text)`;
/// `None` when the pattern does not compile.
pub uninterp spec fn regex_is_match_result(pattern: Seq<char>, text: Seq<char>) -> Option<bool>;

/// A character with a meaning in a regular expression (regex-syntax's
/// `is_meta_character`).
pub open spec fn is_regex_meta(c: char) -> bool {
    c == '\\' || c == '.' || c == '+' || c == '*' || c == '?' || c == '(' || c == ')' || c == '|'
        || c == '[' || c == ']' || c == '{' || c == '}' || c == '^' || c == '$' || c == '#'
        || c == '&' || c == '-' || c == '~'
}

/// The text with a backslash before each meta character (what
/// `regex::escape` gives).
pub open spec fn regex_escape_result(s: Seq<char>) -> Seq<char>
    decreases s.len(),
{
    if s.len() == 0 {
        seq![]
    } else {
        regex_escape_result(s.drop_last()) + (if is_regex_meta(s.last()) {
            seq!['\\', s.last()]
        } else {
            seq![s.last()]
        })
    }
}

/// Result of `unaccent::unaccent(s)`.
pub uninterp spec fn unaccent_result(s: Seq<char>) -> Seq<char>;

/// `Regex::new(pattern)` then `replace_all(text, rep)` (crate `regex`).
/// Claims only that the result is `regex_replace_all_result` of the three
/// arguments, and that it is absent exactly when compilation fails.
#[verifier::external_body]
fn regex_replace_all(pattern: &str, text: &str, rep: &str) -> (r: Option<String>)
    ensures
        r is Some <==> regex_replace_all_result(pattern@, text@, rep@) is Some,
        r matches Some(x) ==> regex_replace_all_result(pattern@, text@, rep@) == Some(x@),
{
    match regex::Regex::new(pattern) {
        Ok(re) => Some(re.replace_all(text, rep).into_owned()),
        Err(_) => None,
    }
}

/// `Regex::new(pattern)` then `replace(text, rep)` (crate `regex`): the
/// leftmost match is replaced. Claims only that the result is
/// `regex_replace_first_result` of the three arguments.
#[verifier::external_body]
fn regex_replace_first(pattern: &str, text: &str, rep: &str) -> (r: Option<String>)
    ensures
        r is Some <==> regex_replace_first_result(pattern@, text@, rep@) is Some,
        r matches Some(x) ==> regex_replace_first_result(pattern@, text@, rep@) == Some(x@),
{
    match regex::Regex::new(pattern) {
        Ok(re) => Some(re.replace(text, rep).into_owned()),
        Err(_) => None,
    }
}

/// `Regex::new(pattern)` then `is_match(text)` (crate `regex`). Claims only
/// that the result is `regex_is_match_result` of the two arguments.
#[verifier::external_body]
fn regex_is_match(pattern: &str, text: &str) -> (r: Option<bool>)
    ensures
        r == regex_is_match_result(pattern@, text@),
{
    match regex::Regex::new(pattern) {
        Ok(re) => Some(re.is_match(text)),
        Err(_) => None,
    }
}

/// `regex::escape(s)`: claims the result is `regex_escape_result(s)`, the
/// text with each meta character escaped.
#[verifier::external_body]
fn regex_escape(s: &str) -> (r: String)
    ensures
        r@ == regex_escape_result(s@),
{
    regex::escape(s)
}

/// `unaccent::unaccent(s)`: claims only that the result is `unaccent_result(s)`.
#[verifier::external_body]
fn unaccent_call(s: &str) -> (r: String)
    ensures
        r@ == unaccent_result(s@),
{
    unaccent::unaccent(s)
}

/// `text` with every match of `pattern` replaced by `rep`; `text` itself
/// when the pattern does not compile.
pub open spec fn replace_all_or_keep(pattern: Seq<char>, text: Seq<char>, rep: Seq<char>) -> Seq<char> {
    match regex_replace_all_result(pattern, text, rep) {
        Some(x) => x,
        None => text,
    }
}

/// `text` with the leftmost match of `pattern` replaced by `rep`; `text`
/// itself when the pattern does not compile.
pub open spec fn replace_first_or_keep(pattern: Seq<char>, text: Seq<char>, rep: Seq<char>) -> Seq<char> {
    match regex_replace_first_result(pattern, text, rep) {
        Some(x) => x,
        None => text,
    }
}

/// Whether `pattern` matches somewhere in `text`; false when it does not compile.
pub open spec fn regex_matches(pattern: Seq<char>, text: Seq<char>) -> bool {
    regex_is_match_result(pattern, text) == Some(true)
}

/// Replaces every match of `pattern` in `text` with `rep`.
pub fn replace_all(pattern: &str, text: &str, rep: &str) -> (r: String)
    ensures
        r@ == replace_all_or_keep(pattern@, text@, rep@),
{
    match regex_replace_all(pattern, text, rep) {
        Some(x) => x,
        None => text.to_owned(),
    }
}

/// Replaces the leftmost match of `pattern` in `text` with `rep`.
pub fn replace_first(pattern: &str, text: &str, rep: &str) -> (r: String)
    ensures
        r@ == replace_first_or_keep(pattern@, text@, rep@),
{
    match regex_replace_first(pattern, text, rep) {
        Some(x) => x,
        None => text.to_owned(),
    }
}

/// Whether `pattern` matches somewhere in `text`.
pub fn is_match(pattern: &str, text: &str) -> (b: bool)
    ensures
        b == regex_matches(pattern@, text@),
{
    match regex_is_match(pattern, text) {
        Some(b) => b,
        None => false,
    }
}

/// `regex::escape`: `s` with every regex metacharacter escaped.
pub fn escape(s: &str) -> (r: String)
    ensures
        r@ == regex_escape_result(s@),
{
    regex_escape(s)
}

/// Removes diacritical marks (NFD decomposition, combining marks dropped,
/// NFC recomposition).
pub fn remove_diacritics(s: &str) -> (r: String)
    ensures
        r@ == unaccent_result(s@),
{
    unaccent_call(s)
}

} // verus!
