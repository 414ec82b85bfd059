//! Contracts that are taken on trust.
//!
//! Everything here describes code that lives outside this crate: the `regex`
//! crate, and a few functions of the standard library. Verus does not check
//! these contracts; each one is stated from the documentation of the function
//! it describes. Where a result is too intricate to write down, it only gets a
//! name, and the rest of the crate speaks of it by that name.

use vstd::prelude::*;

verus! {

/// Whether `char::is_whitespace` holds of `c`, that is, whether `c` has the
/// Unicode property `White_Space`.
pub uninterp spec fn white_space(c: char) -> bool;

/// `char::is_whitespace` is a function of the character alone.
pub assume_specification[ char::is_whitespace ](c: char) -> (r: bool)
    ensures
        r == white_space(c),
;

/// The text that `str::to_lowercase` makes of `text`.
pub uninterp spec fn lowercase(text: Seq<char>) -> Seq<char>;

/// `str::to_lowercase` is a function of the text alone.
pub assume_specification[ str::to_lowercase ](text: &str) -> (r: String)
    ensures
        r@ == lowercase(text@),
;

/// `String::push` appends the character to the end of the string.
pub assume_specification[ String::push ](text: &mut String, c: char)
    ensures
        final(text)@ == old(text)@.push(c),
;

/// Whether `regex::Regex::new` compiles `pattern`.
pub uninterp spec fn regex_accepts(pattern: Seq<char>) -> bool;

/// The text that `regex::Regex::replace_all` returns for the regex compiled
/// from `pattern`, the haystack `text` and the replacement string
/// `replacement`, in which `$` refers to capture groups.
pub uninterp spec fn regex_replaced(
    pattern: Seq<char>,
    text: Seq<char>,
    replacement: Seq<char>,
) -> Seq<char>;

/// Whether `regex::Regex::is_match` finds a match of the regex compiled from
/// `pattern` anywhere in `text`.
pub uninterp spec fn regex_found(pattern: Seq<char>, text: Seq<char>) -> bool;

/// Compiles `pattern` with `regex::Regex::new` and rewrites `text` with
/// `regex::Regex::replace_all`.
///
/// Returns `None` exactly when the pattern is rejected. Otherwise the result
/// is whatever the crate makes of the three arguments.
#[verifier::external_body]
pub(crate) fn regex_replace_all(pattern: &str, text: &str, replacement: &str) -> (out: Option<
    String,
>)
    ensures
        out is Some == regex_accepts(pattern@),
        out matches Some(s) ==> s@ == regex_replaced(pattern@, text@, replacement@),
{
    match regex::Regex::new(pattern) {
        Ok(re) => Some(re.replace_all(text, replacement).into_owned()),
        Err(_) => None,
    }
}

/// Compiles `pattern` with `regex::Regex::new` and searches `text` with
/// `regex::Regex::is_match`.
///
/// Returns `None` exactly when the pattern is rejected. Otherwise the result
/// is whatever the crate finds for the two arguments.
#[verifier::external_body]
pub(crate) fn regex_is_match(pattern: &str, text: &str) -> (out: Option<bool>)
    ensures
        out is Some == regex_accepts(pattern@),
        out matches Some(found) ==> found == regex_found(pattern@, text@),
{
    match regex::Regex::new(pattern) {
        Ok(re) => Some(re.is_match(text)),
        Err(_) => None,
    }
}

} // verus!
