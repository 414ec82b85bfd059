//! The judgment that a path is too broad: that it names a place which exists
//! whether or not the game is installed, or which is no fixed place at all.

use crate::assumed::{lowercase, regex_accepts, regex_found, regex_is_match};
use crate::placeholder::{
    vocabulary, wildcard_avoiding, ALL, AVOID_WILDCARDS, BASE, HOME, ROOT, STORE_USER_ID,
    WIN_APP_DATA, WIN_DIR, WIN_DOCUMENTS, XDG_CONFIG, XDG_DATA,
};
use crate::text::{begins_with, chars_of, has_char, join, same, starts_with};
use vstd::prelude::*;
use vstd::string::StringExecFns;
use vstd::utf8::{
    char_is_scalar, encode_scalar, encode_utf8, encode_utf8_decode_utf8, encode_utf8_first_scalar,
    encode_utf8_valid_utf8, is_char_boundary, length_of_first_scalar, pop_first_scalar, valid_utf8,
};

verus! {

/// Directories and files that are there on every machine, each as a root
/// and what follows it. A path that names one of them, in any letter case,
/// names nothing of a particular game.
pub const BLACKLIST: [(&'static str, &'static str); 29] = [
    (BASE, "/<storeUserId>"),
    (HOME, "/Documents"),
    (HOME, "/Saved Games"),
    (HOME, "/AppData"),
    (HOME, "/AppData/Local"),
    (HOME, "/AppData/Local/Packages"),
    (HOME, "/AppData/LocalLow"),
    (HOME, "/AppData/Roaming"),
    (HOME, "/Documents/My Games"),
    (HOME, "/Library/Application Support"),
    (HOME, "/Library/Application Support/UserData"),
    (HOME, "/Library/Preferences"),
    (HOME, "/.renpy"),
    (HOME, "/.renpy/persistent"),
    (HOME, "/Library"),
    (HOME, "/Library/RenPy"),
    (HOME, "/Telltale Games"),
    (ROOT, "/config"),
    (WIN_APP_DATA, "/MMFApplications"),
    (WIN_APP_DATA, "/RenPy"),
    (WIN_APP_DATA, "/RenPy/persistent"),
    (WIN_DIR, "/win.ini"),
    (WIN_DIR, "/SysWOW64"),
    (WIN_DOCUMENTS, "/My Games"),
    (WIN_DOCUMENTS, "/Telltale Games"),
    (XDG_CONFIG, "/unity3d"),
    (XDG_DATA, "/unity3d"),
    ("C:", "/Program Files"),
    ("C:", "/Program Files (x86)"),
];

/// The pattern of a drive letter with its colon and nothing else.
pub const DRIVE: &'static str = "^[a-zA-Z]:$";

/// The texts of [`BLACKLIST`], in its order.
pub open spec fn blacklist() -> Seq<Seq<char>> {
    Seq::new(BLACKLIST@.len(), |i: int| BLACKLIST@[i].0@ + BLACKLIST@[i].1@)
}

/// The first entry of the blacklist is the store user identifier under the
/// base directory, spelt as the vocabulary spells it.
pub proof fn lemma_blacklist_names_store_user_id()
    ensures
        blacklist()[0] == BASE@ + "/"@ + STORE_USER_ID@,
{
    reveal_strlit("/<storeUserId>");
    reveal_strlit("/");
    reveal_strlit("<storeUserId>");
    assert("/<storeUserId>"@ =~= "/"@ + STORE_USER_ID@);
    assert(BASE@ + ("/"@ + STORE_USER_ID@) =~= BASE@ + "/"@ + STORE_USER_ID@);
}

/// Whether `path` is a placeholder with nothing behind it.
pub open spec fn is_bare_placeholder(path: Seq<char>) -> bool {
    vocabulary().contains(path)
}

/// Whether `path` goes on behind `root` with a wildcard or with the store
/// user identifier.
pub open spec fn is_loose_under(path: Seq<char>, root: Seq<char>) -> bool {
    ||| starts_with(path, root + "/*"@)
    ||| starts_with(path, root + "/"@ + STORE_USER_ID@)
}

/// Whether `path` is loose under one of the wildcard-avoiding placeholders.
pub open spec fn is_loose_under_root(path: Seq<char>) -> bool {
    exists|i: int|
        0 <= i < wildcard_avoiding().len() && is_loose_under(path, #[trigger] wildcard_avoiding()[i])
}

/// Whether a path hits a blacklist entry, both given in lower case:
/// the path is the entry, or goes on behind it with a wildcard, with the
/// store user identifier (also in lower case), or with `savesdir`.
pub open spec fn hits_entry(path: Seq<char>, entry: Seq<char>, user_id: Seq<char>) -> bool {
    ||| path == entry
    ||| starts_with(path, entry + "/*"@)
    ||| starts_with(path, entry + "/"@ + user_id)
    ||| starts_with(path, entry + "/savesdir"@)
}

/// Whether `path`, letter case aside, hits an entry of the blacklist.
pub open spec fn is_blacklisted(path: Seq<char>) -> bool {
    exists|i: int|
        0 <= i < blacklist().len() && hits_entry(
            lowercase(path),
            lowercase(#[trigger] blacklist()[i]),
            lowercase(STORE_USER_ID@),
        )
}

/// Whether `path` is a drive letter with its colon and nothing else, as the
/// pattern [`DRIVE`] finds it.
pub open spec fn is_bare_drive(path: Seq<char>) -> bool {
    regex_accepts(DRIVE@) && regex_found(DRIVE@, path)
}

/// Whether `c` takes one byte in UTF-8.
pub open spec fn is_one_byte(c: char) -> bool {
    c as u32 <= 0x7F
}

/// Whether `c` takes two bytes in UTF-8.
pub open spec fn is_two_bytes(c: char) -> bool {
    0x80 <= c as u32 <= 0x7FF
}

/// What is left of `path` behind its first two bytes in UTF-8, where these
/// are two characters or one.
///
/// A drive letter and its colon are such two bytes. There is nothing to
/// speak of where the path is shorter than two bytes, or where its third byte
/// lies inside a character.
pub open spec fn past_drive(path: Seq<char>) -> Option<Seq<char>> {
    if path.len() >= 1 && is_two_bytes(path[0]) {
        Some(path.skip(1))
    } else if path.len() >= 2 && is_one_byte(path[0]) && is_one_byte(path[1]) {
        Some(path.skip(2))
    } else {
        None
    }
}

/// Whether `path` holds a colon behind the place of a drive letter and its
/// colon, as [`past_drive`] tells it.
pub open spec fn has_stray_colon(path: Seq<char>) -> bool {
    match past_drive(path) {
        Some(rest) => rest.contains(':'),
        None => false,
    }
}

/// The encoding of a text is that of its first character and that of the
/// rest, and the first character is found again at its start.
proof fn lemma_encoding_unfolds(text: Seq<char>)
    requires
        text.len() > 0,
    ensures
        valid_utf8(encode_utf8(text)),
        encode_utf8(text) == encode_scalar(text[0] as u32) + encode_utf8(text.drop_first()),
        pop_first_scalar(encode_utf8(text)) == encode_utf8(text.drop_first()),
        length_of_first_scalar(encode_utf8(text)) == encode_scalar(text[0] as u32).len(),
        is_one_byte(text[0]) <==> encode_scalar(text[0] as u32).len() == 1,
        is_two_bytes(text[0]) <==> encode_scalar(text[0] as u32).len() == 2,
        1 <= encode_scalar(text[0] as u32).len() <= 4,
{
    encode_utf8_valid_utf8(text);
    encode_utf8_first_scalar(text);
    char_is_scalar(text[0]);
    assert(pop_first_scalar(encode_utf8(text)) =~= encode_utf8(text.drop_first()));
}

/// The third byte of the encoding of `path` begins a character, or ends the
/// path, exactly where [`past_drive`] has something to speak of, and that is
/// what the bytes from there on encode.
proof fn lemma_past_drive_in_bytes(path: Seq<char>)
    ensures
        is_char_boundary(encode_utf8(path), 2) == past_drive(path).is_some(),
        past_drive(path) matches Some(rest) ==> encode_utf8(path).skip(2) == encode_utf8(rest),
{
    let bytes = encode_utf8(path);
    encode_utf8_valid_utf8(path);
    reveal_with_fuel(is_char_boundary, 3);
    if path.len() == 0 {
        assert(bytes.len() == 0);
    } else {
        lemma_encoding_unfolds(path);
        let rest = path.drop_first();
        let rest_bytes = encode_utf8(rest);
        let first = encode_scalar(path[0] as u32);
        assert(rest =~= path.skip(1));
        if first.len() == 2 {
            assert(bytes.skip(2) =~= rest_bytes);
        } else if first.len() == 1 {
            if rest.len() == 0 {
                assert(rest_bytes.len() == 0);
            } else {
                lemma_encoding_unfolds(rest);
                let second = encode_scalar(rest[0] as u32);
                assert(rest[0] == path[1]);
                assert(rest.drop_first() =~= path.skip(2));
                if second.len() == 1 {
                    assert(bytes.skip(2) =~= encode_utf8(rest.drop_first()));
                }
            }
        }
    }
}

/// Whether `path` is too broad to be kept.
pub open spec fn is_too_broad(path: Seq<char>) -> bool {
    ||| is_bare_placeholder(path)
    ||| is_loose_under_root(path)
    ||| is_blacklisted(path)
    ||| is_bare_drive(path)
    ||| has_stray_colon(path)
    ||| path == "/"@
    ||| (path.len() > 0 && path[0] == '*')
}

/// Whether `path` is a placeholder with nothing behind it.
pub fn bare_placeholder(path: &[char]) -> (r: bool)
    ensures
        r == is_bare_placeholder(path@),
{
    let mut i: usize = 0;
    while i < ALL.len()
        invariant
            i <= ALL@.len(),
            forall|k: int| 0 <= k < i ==> vocabulary()[k] != path@,
        decreases ALL@.len() - i,
    {
        let name = chars_of(ALL[i]);
        if same(path, name.as_slice()) {
            assert(vocabulary()[i as int] == path@);
            return true;
        }
        i += 1;
    }
    false
}

/// Whether `path` goes on behind `root` with a wildcard or with the store
/// user identifier.
pub fn loose_under(path: &[char], root: &[char]) -> (r: bool)
    ensures
        r == is_loose_under(path@, root@),
{
    let wildcard = join(root, chars_of("/*").as_slice());
    if begins_with(path, wildcard.as_slice()) {
        return true;
    }
    let slash = join(root, chars_of("/").as_slice());
    let user = join(slash.as_slice(), chars_of(STORE_USER_ID).as_slice());
    begins_with(path, user.as_slice())
}

/// Whether `path` is loose under one of the wildcard-avoiding placeholders.
pub fn loose_under_root(path: &[char]) -> (r: bool)
    ensures
        r == is_loose_under_root(path@),
{
    let mut i: usize = 0;
    while i < AVOID_WILDCARDS.len()
        invariant
            i <= AVOID_WILDCARDS@.len(),
            forall|k: int| 0 <= k < i ==> !is_loose_under(path@, wildcard_avoiding()[k]),
        decreases AVOID_WILDCARDS@.len() - i,
    {
        let root = chars_of(AVOID_WILDCARDS[i]);
        if loose_under(path, root.as_slice()) {
            assert(is_loose_under(path@, wildcard_avoiding()[i as int]));
            return true;
        }
        i += 1;
    }
    false
}

/// Whether a path hits a blacklist entry, both given in lower case.
pub fn hits(path: &[char], entry: &[char], user_id: &[char]) -> (r: bool)
    ensures
        r == hits_entry(path@, entry@, user_id@),
{
    if same(path, entry) {
        return true;
    }
    let wildcard = join(entry, chars_of("/*").as_slice());
    if begins_with(path, wildcard.as_slice()) {
        return true;
    }
    let slash = join(entry, chars_of("/").as_slice());
    let user = join(slash.as_slice(), user_id);
    if begins_with(path, user.as_slice()) {
        return true;
    }
    let saves = join(entry, chars_of("/savesdir").as_slice());
    begins_with(path, saves.as_slice())
}

/// Whether `path`, letter case aside, hits an entry of the blacklist.
pub fn blacklisted(path: &str) -> (r: bool)
    ensures
        r == is_blacklisted(path@),
{
    let path_lower = chars_of(path.to_lowercase().as_str());
    let user_id = chars_of(STORE_USER_ID.to_lowercase().as_str());
    let mut i: usize = 0;
    while i < BLACKLIST.len()
        invariant
            i <= BLACKLIST@.len(),
            path_lower@ == lowercase(path@),
            user_id@ == lowercase(STORE_USER_ID@),
            forall|k: int|
                0 <= k < i ==> !hits_entry(
                    lowercase(path@),
                    lowercase(#[trigger] blacklist()[k]),
                    lowercase(STORE_USER_ID@),
                ),
        decreases BLACKLIST@.len() - i,
    {
        let (root, tail) = BLACKLIST[i];
        let mut entry = String::from_str(root);
        entry.append(tail);
        assert(entry@ == blacklist()[i as int]);
        let entry_lower = chars_of(entry.to_lowercase().as_str());
        if hits(path_lower.as_slice(), entry_lower.as_slice(), user_id.as_slice()) {
            return true;
        }
        i += 1;
    }
    false
}

/// Whether `path` is a drive letter with its colon and nothing else.
///
/// Should the pattern [`DRIVE`] ever be rejected, no path is one.
pub fn bare_drive(path: &str) -> (r: bool)
    ensures
        r == is_bare_drive(path@),
{
    match regex_is_match(DRIVE, path) {
        Some(found) => found,
        None => false,
    }
}

/// Whether `path` holds a colon behind the place of a drive letter and its
/// colon.
pub fn stray_colon(path: &str) -> (r: bool)
    ensures
        r == has_stray_colon(path@),
{
    proof {
        lemma_past_drive_in_bytes(path@);
    }
    if path.is_char_boundary(2) {
        let (_, rest) = path.split_at(2);
        proof {
            let bytes = encode_utf8(path@);
            assert(bytes.skip(2) =~= bytes.subrange(2, bytes.len() as int));
            encode_utf8_decode_utf8(rest@);
            encode_utf8_decode_utf8(past_drive(path@).unwrap());
        }
        has_char(rest, ':')
    } else {
        false
    }
}

/// Whether `path` is too broad to be kept.
///
/// The checks run in the order of [`is_too_broad`] and stop at the first
/// that holds.
pub fn too_broad(path: &str) -> (r: bool)
    ensures
        r == is_too_broad(path@),
{
    let chars = chars_of(path);
    if bare_placeholder(chars.as_slice()) {
        return true;
    }
    if loose_under_root(chars.as_slice()) {
        return true;
    }
    if blacklisted(path) {
        return true;
    }
    if bare_drive(path) {
        return true;
    }
    if stray_colon(path) {
        return true;
    }
    if same(chars.as_slice(), chars_of("/").as_slice()) {
        return true;
    }
    chars.len() > 0 && chars[0] == '*'
}

} // verus!
