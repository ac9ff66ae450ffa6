//! Regular-expression searches, made with the `regex` crate.
use vstd::prelude::*;
use regex::Regex;

verus! {

/// Whether the regular expression `pattern` matches somewhere in `text`
/// (`Regex::is_match`); false when `pattern` is not a valid expression.
pub uninterp spec fn regex_finds(pattern: Seq<char>, text: Seq<char>) -> bool;

/// The text of capture group 1 of the leftmost match of `pattern` in `text`
/// (`Regex::captures`), if there is a match and the group took part in it.
pub uninterp spec fn regex_capture1(pattern: Seq<char>, text: Seq<char>) -> Option<Seq<char>>;

/// The texts of the successive non-overlapping matches of `pattern` in `text`
/// (`Regex::find_iter`); empty when `pattern` is not a valid expression.
pub uninterp spec fn regex_matches(pattern: Seq<char>, text: Seq<char>) -> Seq<Seq<char>>;

/// `text` with the leftmost match of `pattern` replaced by `replacement`, its
/// `$` group references expanded (`Regex::replace`); `text` itself when
/// `pattern` is not a valid expression.
pub uninterp spec fn regex_replaced_first(pattern: Seq<char>, text: Seq<char>, replacement: Seq<char>) -> Seq<char>;

/// `text` with the leftmost match of `pattern` removed.
pub open spec fn regex_remove_first(pattern: Seq<char>, text: Seq<char>) -> Seq<char> {
    regex_replaced_first(pattern, text, seq![])
}

/// Calls `Regex::new(pattern)` and then `is_match(text)`.
#[verifier::external_body]
pub fn regex_is_match(pattern: &str, text: &str) -> (r: bool)
    ensures
        r == regex_finds(pattern@, text@),
{
    Regex::new(pattern).map(|regex| regex.is_match(text)).unwrap_or(false)
}

/// Calls `Regex::new(pattern)` and then `captures(text)`, taking group 1.
#[verifier::external_body]
pub fn regex_first_capture(pattern: &str, text: &str) -> (r: Option<String>)
    ensures
        match r {
            Some(s) => regex_capture1(pattern@, text@) == Some(s@),
            None => regex_capture1(pattern@, text@) is None,
        },
{
    Regex::new(pattern)
        .ok()
        .and_then(|regex| regex.captures(text).and_then(|c| c.get(1).map(|m| m.as_str().to_string())))
}

/// Calls `Regex::new(pattern)` and then `find_iter(text)`, keeping each match's text.
#[verifier::external_body]
pub fn regex_find_all(pattern: &str, text: &str) -> (r: Vec<String>)
    ensures
        r@.map_values(|s: String| s@) == regex_matches(pattern@, text@),
{
    match Regex::new(pattern) {
        Ok(regex) => regex.find_iter(text).map(|m| m.as_str().to_string()).collect(),
        Err(_) => Vec::new(),
    }
}

/// Calls `Regex::new(pattern)` and then `replace(text, replacement)`.
#[verifier::external_body]
pub fn regex_replace_first(pattern: &str, text: &str, replacement: &str) -> (r: String)
    ensures
        r@ == regex_replaced_first(pattern@, text@, replacement@),
{
    Regex::new(pattern).map(|regex| regex.replace(text, replacement).to_string()).unwrap_or_else(
        |_| text.to_string(),
    )
}

} // verus!
