//! The canonical form of a path.
//!
//! A path is brought into canonical form by a fixed pipeline: it is cleaned
//! of surrounding whitespace, trailing separators and backslashes; a leading
//! `~` becomes the home placeholder; a list of rewrite rules is applied, one
//! after the other; on Windows, the documents directory under the home
//! placeholder gets its own placeholder; and the account identifiers of a
//! store become the store user identifier.

use crate::assumed::{regex_accepts, regex_replace_all, regex_replaced, white_space};
use crate::os::Os;
use crate::placeholder::{HOME, STORE_USER_ID, WIN_APP_DATA, WIN_DOCUMENTS, WIN_LOCAL_APP_DATA};
use crate::text::{
    begins_with, chars_of, keeps_apart, lemma_replaced_brings_none,
    lemma_replaced_leaves_none, lemma_replaced_without_occurrence, occurs_in, replace, replaced,
    same, starts_with, string_of,
};
use vstd::prelude::*;
use vstd::slice::slice_to_vec;

verus! {

/// The rewrite rules, each a regular expression and what replaces every
/// match of it. They apply in this order, each to the result of the one
/// before.
pub const RULES: [(&'static str, &'static str); 13] = [
    // A run of slashes is one slash.
    ("/{2,}", "/"),
    // A run of asterisks behind a character of a name is one asterisk.
    (r"([^/*])\*{2,}", "${1}*"),
    // A run of asterisks before a character of a name is one asterisk.
    (r"\*{2,}([^/*])", "*${1}"),
    // Wildcard segments at the end say nothing.
    (r"(/\*)+$", ""),
    // Nor does a dot segment at the end,
    (r"(/\.)$", ""),
    // or one in the middle,
    (r"(/\./)", "/"),
    // or a segment of whitespace.
    (r"(/\s+/)", "/"),
    // The environment variables of Windows, in any letter case.
    ("(?i)%appdata%", WIN_APP_DATA),
    ("(?i)%userprofile%/AppData/Roaming", WIN_APP_DATA),
    ("(?i)%localappdata%", WIN_LOCAL_APP_DATA),
    ("(?i)%userprofile%/AppData/Local/", "<winLocalAppData>/"),
    ("(?i)%userprofile%", HOME),
    ("(?i)%userprofile%/Documents", WIN_DOCUMENTS),
];

/// The documents directory at the start of a path, under the home
/// placeholder, in any letter case.
pub const HOME_DOCUMENTS: &'static str = "(?i)^<home>/Documents";

/// The 64-bit account identifier of Steam.
pub const STEAM_ID_64: &'static str = "{64BitSteamID}";

/// The account identifier of Steam in its third form.
pub const STEAM_ID_3: &'static str = "{Steam3AccountID}";

/// Where a rule spells a placeholder out, it spells it as the vocabulary
/// does.
pub proof fn lemma_rules_name_placeholders()
    ensures
        RULES@[10].1@ == WIN_LOCAL_APP_DATA@ + "/"@,
        HOME_DOCUMENTS@ == "(?i)^"@ + HOME@ + "/Documents"@,
{
    reveal_strlit("<winLocalAppData>/");
    reveal_strlit("<winLocalAppData>");
    reveal_strlit("/");
    assert("<winLocalAppData>/"@ =~= WIN_LOCAL_APP_DATA@ + "/"@);
    reveal_strlit("(?i)^<home>/Documents");
    reveal_strlit("(?i)^");
    reveal_strlit("<home>");
    reveal_strlit("/Documents");
    assert("(?i)^<home>/Documents"@ =~= "(?i)^"@ + HOME@ + "/Documents"@);
}

/// Whether `c` separates the segments of a path.
pub open spec fn is_separator(c: char) -> bool {
    c == '/' || c == '\\'
}

/// `text` without the whitespace at its start.
pub open spec fn without_leading_space(text: Seq<char>) -> Seq<char>
    decreases text.len(),
{
    if text.len() > 0 && white_space(text[0]) {
        without_leading_space(text.skip(1))
    } else {
        text
    }
}

/// `text` without the whitespace at its end.
pub open spec fn without_trailing_space(text: Seq<char>) -> Seq<char>
    decreases text.len(),
{
    if text.len() > 0 && white_space(text.last()) {
        without_trailing_space(text.drop_last())
    } else {
        text
    }
}

/// `text` without the separators at its end.
pub open spec fn without_trailing_separators(text: Seq<char>) -> Seq<char>
    decreases text.len(),
{
    if text.len() > 0 && is_separator(text.last()) {
        without_trailing_separators(text.drop_last())
    } else {
        text
    }
}

/// `text` with a slash for every backslash.
pub open spec fn with_forward_slashes(text: Seq<char>) -> Seq<char> {
    Seq::new(
        text.len(),
        |i: int|
            if text[i] == '\\' {
                '/'
            } else {
                text[i]
            },
    )
}

/// The first step: whitespace at both ends goes, then the separators at the
/// end, then every backslash becomes a slash.
pub open spec fn cleaned(path: Seq<char>) -> Seq<char> {
    with_forward_slashes(
        without_trailing_separators(without_trailing_space(without_leading_space(path))),
    )
}

/// The second step: a path that is `~`, or begins with `~/`, gets the home
/// placeholder in place of the `~`.
pub open spec fn home_expanded(path: Seq<char>) -> Seq<char> {
    if path == "~"@ || starts_with(path, "~/"@) {
        HOME@ + path.skip(1)
    } else {
        path
    }
}

/// `text` with every match of `pattern` replaced as `replacement` says.
///
/// Matching and replacing are the regex crate's; a pattern that it rejects
/// changes nothing.
pub open spec fn rewritten(text: Seq<char>, pattern: Seq<char>, replacement: Seq<char>) -> Seq<
    char,
> {
    if regex_accepts(pattern) {
        regex_replaced(pattern, text, replacement)
    } else {
        text
    }
}

/// `text` after the first `n` of the [`RULES`].
pub open spec fn after_rules(text: Seq<char>, n: nat) -> Seq<char>
    decreases n,
{
    if n == 0 {
        text
    } else {
        rewritten(after_rules(text, (n - 1) as nat), RULES@[n - 1].0@, RULES@[n - 1].1@)
    }
}

/// The third step: `text` after all of the [`RULES`].
pub open spec fn ruled(text: Seq<char>) -> Seq<char> {
    after_rules(text, RULES@.len())
}

/// The fourth step: for Windows, [`HOME_DOCUMENTS`] becomes the documents
/// placeholder. For any other system, or none, nothing changes.
pub open spec fn for_os(text: Seq<char>, os: Option<Os>) -> Seq<char> {
    if os == Some(Os::Windows) {
        rewritten(text, HOME_DOCUMENTS@, WIN_DOCUMENTS@)
    } else {
        text
    }
}

/// The fifth step: the account identifiers of a store become the store user
/// identifier, letter for letter.
pub open spec fn with_store_user_id(text: Seq<char>) -> Seq<char> {
    replaced(replaced(text, STEAM_ID_64@, STORE_USER_ID@), STEAM_ID_3@, STORE_USER_ID@)
}

/// The canonical form of `path` for the system `os`.
pub open spec fn normalized(path: Seq<char>, os: Option<Os>) -> Seq<char> {
    with_store_user_id(for_os(ruled(home_expanded(cleaned(path))), os))
}

/// Whether none of the first four steps of the pipeline changes `path`.
pub open spec fn is_settled(path: Seq<char>, os: Option<Os>) -> bool {
    &&& cleaned(path) == path
    &&& home_expanded(path) == path
    &&& forall|i: int|
        0 <= i < RULES@.len() ==> #[trigger] rewritten(path, RULES@[i].0@, RULES@[i].1@) == path
    &&& for_os(path, os) == path
}

/// A path that none of the first `n` rules changes is the same after them.
proof fn lemma_rules_keep(path: Seq<char>, n: nat)
    requires
        n <= RULES@.len(),
        forall|i: int|
            0 <= i < RULES@.len() ==> #[trigger] rewritten(path, RULES@[i].0@, RULES@[i].1@) == path,
    ensures
        after_rules(path, n) == path,
    decreases n,
{
    if n > 0 {
        lemma_rules_keep(path, (n - 1) as nat);
        assert(rewritten(path, RULES@[n - 1].0@, RULES@[n - 1].1@) == path);
    }
}

/// The store user identifier keeps apart from both account identifiers.
proof fn lemma_identifiers_keep_apart()
    ensures
        keeps_apart(STEAM_ID_64@, STORE_USER_ID@),
        keeps_apart(STEAM_ID_3@, STORE_USER_ID@),
{
    reveal_strlit("{64BitSteamID}");
    reveal_strlit("{Steam3AccountID}");
    reveal_strlit("<storeUserId>");
}

/// The fifth step leaves no account identifier behind.
pub proof fn lemma_store_user_id_leaves_none(text: Seq<char>)
    ensures
        !occurs_in(with_store_user_id(text), STEAM_ID_64@),
        !occurs_in(with_store_user_id(text), STEAM_ID_3@),
{
    lemma_identifiers_keep_apart();
    let first = replaced(text, STEAM_ID_64@, STORE_USER_ID@);
    lemma_replaced_leaves_none(text, STEAM_ID_64@, STORE_USER_ID@);
    lemma_replaced_brings_none(first, STEAM_ID_3@, STORE_USER_ID@, STEAM_ID_64@);
    lemma_replaced_leaves_none(first, STEAM_ID_3@, STORE_USER_ID@);
}

/// The fifth step changes nothing in a text without account identifiers.
pub proof fn lemma_store_user_id_keeps(text: Seq<char>)
    requires
        !occurs_in(text, STEAM_ID_64@),
        !occurs_in(text, STEAM_ID_3@),
    ensures
        with_store_user_id(text) == text,
{
    lemma_replaced_without_occurrence(text, STEAM_ID_64@, STORE_USER_ID@);
    lemma_replaced_without_occurrence(text, STEAM_ID_3@, STORE_USER_ID@);
}

/// A canonical form holds no account identifier, whatever the path and the
/// system.
pub proof fn lemma_normalized_has_no_account_id(path: Seq<char>, os: Option<Os>)
    ensures
        !occurs_in(normalized(path, os), STEAM_ID_64@),
        !occurs_in(normalized(path, os), STEAM_ID_3@),
{
    lemma_store_user_id_leaves_none(for_os(ruled(home_expanded(cleaned(path))), os));
}

/// A path without account identifiers that none of the first four steps
/// changes is its own canonical form.
pub proof fn lemma_settled_is_canonical(path: Seq<char>, os: Option<Os>)
    requires
        is_settled(path, os),
        !occurs_in(path, STEAM_ID_64@),
        !occurs_in(path, STEAM_ID_3@),
    ensures
        normalized(path, os) == path,
{
    lemma_rules_keep(path, RULES@.len());
    lemma_store_user_id_keeps(path);
}

/// Normalizing a second time changes nothing, wherever none of the first
/// four steps changes what the first time gave.
pub proof fn lemma_normalize_idempotent(path: Seq<char>, os: Option<Os>)
    requires
        is_settled(normalized(path, os), os),
    ensures
        normalized(normalized(path, os), os) == normalized(path, os),
{
    lemma_normalized_has_no_account_id(path, os);
    lemma_settled_is_canonical(normalized(path, os), os);
}

/// Only for Windows does the system make a difference to the canonical
/// form.
pub proof fn lemma_only_windows_differs(path: Seq<char>, os: Option<Os>)
    requires
        os != Some(Os::Windows),
    ensures
        normalized(path, os) == normalized(path, None),
{
}

/// The first step of the pipeline.
pub fn clean(path: &[char]) -> (out: Vec<char>)
    ensures
        out@ == cleaned(path@),
{
    let mut start: usize = 0;
    assert(path@.skip(0) =~= path@);
    while start < path.len() && path[start].is_whitespace()
        invariant
            start <= path.len(),
            without_leading_space(path@) == without_leading_space(path@.skip(start as int)),
        decreases path.len() - start,
    {
        assert(path@.skip(start as int).skip(1) =~= path@.skip(start + 1));
        start += 1;
    }
    let ghost led = path@.skip(start as int);
    assert(without_leading_space(path@) == led);
    let mut end: usize = path.len();
    assert(path@.subrange(start as int, end as int) =~= led);
    while end > start && path[end - 1].is_whitespace()
        invariant
            start <= end <= path.len(),
            without_trailing_space(led) == without_trailing_space(
                path@.subrange(start as int, end as int),
            ),
        decreases end,
    {
        assert(path@.subrange(start as int, end as int).drop_last() =~= path@.subrange(
            start as int,
            end - 1,
        ));
        end -= 1;
    }
    let ghost trimmed = path@.subrange(start as int, end as int);
    assert(without_trailing_space(led) == trimmed);
    let ghost trimmed_end = end;
    while end > start && (path[end - 1] == '/' || path[end - 1] == '\\')
        invariant
            start <= end <= path.len(),
            without_trailing_separators(trimmed) == without_trailing_separators(
                path@.subrange(start as int, end as int),
            ),
        decreases end,
    {
        assert(path@.subrange(start as int, end as int).drop_last() =~= path@.subrange(
            start as int,
            end - 1,
        ));
        end -= 1;
    }
    let ghost kept = path@.subrange(start as int, end as int);
    assert(without_trailing_separators(trimmed) == kept);
    let mut out: Vec<char> = Vec::new();
    let mut i: usize = start;
    while i < end
        invariant
            start <= i <= end <= path.len(),
            kept == path@.subrange(start as int, end as int),
            out@ == with_forward_slashes(kept).take(i - start),
        decreases end - i,
    {
        let c = path[i];
        if c == '\\' {
            out.push('/');
        } else {
            out.push(c);
        }
        i += 1;
    }
    out
}

/// The second step of the pipeline.
pub fn expand_home(path: &[char]) -> (out: Vec<char>)
    ensures
        out@ == home_expanded(path@),
{
    if same(path, chars_of("~").as_slice()) || begins_with(path, chars_of("~/").as_slice()) {
        proof {
            reveal_strlit("~");
            reveal_strlit("~/");
            assert(path@.len() >= 1);
        }
        let mut out = chars_of(HOME);
        let mut i: usize = 1;
        while i < path.len()
            invariant
                1 <= i <= path.len(),
                out@ == HOME@ + path@.subrange(1, i as int),
            decreases path.len() - i,
        {
            out.push(path[i]);
            i += 1;
        }
        assert(path@.subrange(1, path@.len() as int) =~= path@.skip(1));
        out
    } else {
        slice_to_vec(path)
    }
}

/// `text` with every match of `pattern` replaced as `replacement` says.
pub fn rewrite(text: String, pattern: &str, replacement: &str) -> (out: String)
    ensures
        out@ == rewritten(text@, pattern@, replacement@),
{
    match regex_replace_all(pattern, text.as_str(), replacement) {
        Some(changed) => changed,
        None => text,
    }
}

/// The third step of the pipeline.
pub fn apply_rules(text: String) -> (out: String)
    ensures
        out@ == ruled(text@),
{
    let ghost start = text@;
    let mut text = text;
    let mut i: usize = 0;
    while i < RULES.len()
        invariant
            i <= RULES@.len(),
            text@ == after_rules(start, i as nat),
        decreases RULES@.len() - i,
    {
        let (pattern, replacement) = RULES[i];
        text = rewrite(text, pattern, replacement);
        i += 1;
    }
    text
}

/// The fourth step of the pipeline.
pub fn adapt_to_os(text: String, os: Option<Os>) -> (out: String)
    ensures
        out@ == for_os(text@, os),
{
    match os {
        Some(Os::Windows) => rewrite(text, HOME_DOCUMENTS, WIN_DOCUMENTS),
        _ => text,
    }
}

/// The fifth step of the pipeline.
pub fn substitute_store_user_id(text: &[char]) -> (out: Vec<char>)
    ensures
        out@ == with_store_user_id(text@),
{
    let user_id = chars_of(STORE_USER_ID);
    let first = replace(text, chars_of(STEAM_ID_64).as_slice(), user_id.as_slice());
    replace(first.as_slice(), chars_of(STEAM_ID_3).as_slice(), user_id.as_slice())
}

/// Brings `path` into canonical form for the system `os`.
///
/// Every input has a canonical form; the empty path is its own.
pub fn normalize(path: &str, os: Option<Os>) -> (out: String)
    ensures
        out@ == normalized(path@, os),
{
    let raw = chars_of(path);
    let clean = clean(raw.as_slice());
    let expanded = expand_home(clean.as_slice());
    let ruled = apply_rules(string_of(expanded.as_slice()));
    let adapted = adapt_to_os(ruled, os);
    let substituted = substitute_store_user_id(chars_of(adapted.as_str()).as_slice());
    string_of(substituted.as_slice())
}

} // verus!
