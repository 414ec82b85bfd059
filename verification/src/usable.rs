//! Whether a canonical path is worth keeping.

use crate::assumed::{lowercase, regex_accepts, regex_found, regex_is_match};
use crate::broad::{blacklist, hits_entry, is_blacklisted, is_too_broad, too_broad};
use crate::placeholder::{vocabulary, STORE_USER_ID};
use crate::text::{begins_with, chars_of, contains, occurs_in, starts_with};
use vstd::prelude::*;

verus! {

/// The mark of a template variable that nothing has filled in.
pub const UNRESOLVED: &'static str = "{{";

/// The pattern of a control character or a format character: the general
/// categories Cc and Cf of Unicode.
pub const UNPRINTABLE: &'static str = r"(\p{Cc}|\p{Cf})";

/// Whether `path` names a place one could go to: it is not empty, holds no
/// unresolved template variable, and is not relative to a directory that
/// nobody named.
pub open spec fn is_actionable(path: Seq<char>) -> bool {
    &&& path.len() > 0
    &&& !occurs_in(path, UNRESOLVED@)
    &&& !starts_with(path, "./"@)
    &&& !starts_with(path, "../"@)
}

/// Whether `path` holds a control or format character, as the pattern
/// [`UNPRINTABLE`] finds it.
pub open spec fn has_unprintable(path: Seq<char>) -> bool {
    regex_accepts(UNPRINTABLE@) && regex_found(UNPRINTABLE@, path)
}

/// Whether `path` is worth keeping.
pub open spec fn is_usable(path: Seq<char>) -> bool {
    &&& is_actionable(path)
    &&& !is_too_broad(path)
    &&& !has_unprintable(path)
}

/// A placeholder with nothing behind it is never usable.
pub proof fn lemma_bare_placeholder_unusable(i: int)
    requires
        0 <= i < vocabulary().len(),
    ensures
        !is_usable(vocabulary()[i]),
{
    assert(vocabulary().contains(vocabulary()[i]));
}

/// A path that differs from a blacklist entry in letter case at most is
/// never usable.
pub proof fn lemma_blacklist_ignores_case(path: Seq<char>, i: int)
    requires
        0 <= i < blacklist().len(),
        lowercase(path) == lowercase(blacklist()[i]),
    ensures
        !is_usable(path),
{
    assert(hits_entry(lowercase(path), lowercase(blacklist()[i]), lowercase(STORE_USER_ID@)));
    assert(is_blacklisted(path));
}

/// Whether `path` names a place one could go to.
pub fn actionable(path: &[char]) -> (r: bool)
    ensures
        r == is_actionable(path@),
{
    path.len() > 0 && !contains(path, chars_of(UNRESOLVED).as_slice()) && !begins_with(
        path,
        chars_of("./").as_slice(),
    ) && !begins_with(path, chars_of("../").as_slice())
}

/// Whether `path` holds a control or format character.
///
/// Should the pattern [`UNPRINTABLE`] ever be rejected, no path holds one.
pub fn unprintable(path: &str) -> (r: bool)
    ensures
        r == has_unprintable(path@),
{
    match regex_is_match(UNPRINTABLE, path) {
        Some(found) => found,
        None => false,
    }
}

/// Whether `path` is worth keeping.
pub fn usable(path: &str) -> (r: bool)
    ensures
        r == is_usable(path@),
{
    actionable(chars_of(path).as_slice()) && !too_broad(path) && !unprintable(path)
}

} // verus!
