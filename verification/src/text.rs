//! Searching and rewriting sequences of characters.
//!
//! The specifications speak of `Seq<char>`; the executable functions work on
//! slices of `char`, so that an index is a character position.

use vstd::prelude::*;

verus! {

/// Whether `pattern` stands in `text` at index `at`.
pub open spec fn occurs_at(text: Seq<char>, pattern: Seq<char>, at: int) -> bool {
    &&& 0 <= at
    &&& at + pattern.len() <= text.len()
    &&& text.subrange(at, at + pattern.len()) == pattern
}

/// Whether `text` begins with `prefix`.
pub open spec fn starts_with(text: Seq<char>, prefix: Seq<char>) -> bool {
    occurs_at(text, prefix, 0)
}

/// Whether `pattern` stands somewhere in `text`.
pub open spec fn occurs_in(text: Seq<char>, pattern: Seq<char>) -> bool {
    exists|at: int| occurs_at(text, pattern, at)
}

/// `text` with every occurrence of `from` replaced by `to`.
///
/// Occurrences are taken from the left and do not overlap: after one has been
/// replaced, the search goes on behind it. An empty `from` occurs nowhere.
pub open spec fn replaced(text: Seq<char>, from: Seq<char>, to: Seq<char>) -> Seq<char>
    decreases text.len(),
{
    if text.len() == 0 {
        text
    } else if from.len() > 0 && starts_with(text, from) {
        to + replaced(text.skip(from.len() as int), from, to)
    } else {
        seq![text[0]] + replaced(text.skip(1), from, to)
    }
}

/// An occurrence in what is left of `text` from index `from` on is one in
/// `text`, further along by `from`.
proof fn lemma_occurs_in_suffix(text: Seq<char>, pattern: Seq<char>, from: int, at: int)
    requires
        0 <= from <= text.len(),
        occurs_at(text.skip(from), pattern, at),
    ensures
        occurs_at(text, pattern, from + at),
{
    assert(text.subrange(from + at, from + at + pattern.len()) =~= text.skip(from).subrange(
        at,
        at + pattern.len(),
    ));
}

/// Where `from` does not occur, replacing it changes nothing.
pub proof fn lemma_replaced_without_occurrence(text: Seq<char>, from: Seq<char>, to: Seq<char>)
    requires
        !occurs_in(text, from),
    ensures
        replaced(text, from, to) == text,
    decreases text.len(),
{
    if text.len() > 0 {
        assert(!starts_with(text, from));
        assert(!occurs_in(text.skip(1), from)) by {
            if occurs_in(text.skip(1), from) {
                let at = choose|at: int| occurs_at(text.skip(1), from, at);
                lemma_occurs_in_suffix(text, from, 1, at);
            }
        }
        lemma_replaced_without_occurrence(text.skip(1), from, to);
        assert(seq![text[0]] + text.skip(1) =~= text);
    }
}

/// As far as the result of a replacement holds no first character of `to`,
/// it is the text as it was.
proof fn lemma_replaced_start(text: Seq<char>, from: Seq<char>, to: Seq<char>, n: nat)
    requires
        to.len() > 0,
        n <= replaced(text, from, to).len(),
        forall|j: int| 0 <= j < n ==> replaced(text, from, to)[j] != to[0],
    ensures
        n <= text.len(),
        replaced(text, from, to).take(n as int) == text.take(n as int),
    decreases n,
{
    let result = replaced(text, from, to);
    if n == 0 {
        assert(result.take(0) =~= text.take(0));
    } else {
        assert(text.len() > 0);
        if from.len() > 0 && starts_with(text, from) {
            assert(result[0] == to[0]);
        } else {
            let rest = replaced(text.skip(1), from, to);
            assert(result == seq![text[0]] + rest);
            assert forall|j: int| 0 <= j < n - 1 implies rest[j] != to[0] by {
                assert(rest[j] == result[j + 1]);
            }
            lemma_replaced_start(text.skip(1), from, to, (n - 1) as nat);
            assert(result.take(n as int) =~= seq![text[0]] + rest.take(n - 1));
            assert(text.take(n as int) =~= seq![text[0]] + text.skip(1).take(n - 1));
        }
    }
}

/// Whether `to`, put in place of something, can neither begin nor be run
/// into by an occurrence of `pattern`: the first character of each is
/// foreign to the other.
pub open spec fn keeps_apart(pattern: Seq<char>, to: Seq<char>) -> bool {
    &&& pattern.len() > 0
    &&& to.len() > 0
    &&& !to.contains(pattern[0])
    &&& !pattern.contains(to[0])
}

/// Where every occurrence of `pattern` in `text` is at a place at which
/// `from` stands too, none is left once `from` has been replaced by `to`.
proof fn lemma_replaced_clears(
    text: Seq<char>,
    from: Seq<char>,
    to: Seq<char>,
    pattern: Seq<char>,
)
    requires
        keeps_apart(pattern, to),
        forall|at: int| #[trigger]
            occurs_at(text, pattern, at) ==> from.len() > 0 && starts_with(text.skip(at), from),
    ensures
        !occurs_in(replaced(text, from, to), pattern),
    decreases text.len(),
{
    let result = replaced(text, from, to);
    if text.len() == 0 {
        assert(result.len() == 0);
    } else {
        let step: int = if from.len() > 0 && starts_with(text, from) {
            from.len() as int
        } else {
            1
        };
        let rest_text = text.skip(step);
        let rest = replaced(rest_text, from, to);
        assert forall|at: int| #[trigger]
            occurs_at(rest_text, pattern, at) implies from.len() > 0 && starts_with(
            rest_text.skip(at),
            from,
        ) by {
            lemma_occurs_in_suffix(text, pattern, step, at);
            assert(text.skip(step + at) =~= rest_text.skip(at));
        }
        lemma_replaced_clears(rest_text, from, to, pattern);
        assert forall|at: int| !occurs_at(result, pattern, at) by {
            if occurs_at(result, pattern, at) {
                let found = result.subrange(at, at + pattern.len());
                if from.len() > 0 && starts_with(text, from) {
                    assert(result == to + rest);
                    if at < to.len() {
                        assert(found[0] == to[at]);
                        assert(to.contains(pattern[0]));
                    } else {
                        assert(rest.subrange(at - to.len(), at - to.len() + pattern.len())
                            =~= found);
                        assert(occurs_at(rest, pattern, at - to.len()));
                    }
                } else {
                    assert(result == seq![text[0]] + rest);
                    if at == 0 {
                        assert forall|j: int| 0 <= j < pattern.len() implies result[j]
                            != to[0] by {
                            assert(found[j] == pattern[j]);
                            if result[j] == to[0] {
                                assert(pattern.contains(to[0]));
                            }
                        }
                        lemma_replaced_start(text, from, to, pattern.len());
                        assert(result.take(pattern.len() as int) =~= found);
                        assert(text.take(pattern.len() as int) =~= text.subrange(
                            0,
                            pattern.len() as int,
                        ));
                        assert(occurs_at(text, pattern, 0));
                        assert(text.skip(0) =~= text);
                    } else {
                        assert(rest.subrange(at - 1, at - 1 + pattern.len()) =~= found);
                        assert(occurs_at(rest, pattern, at - 1));
                    }
                }
            }
        }
    }
}

/// Once `from` has been replaced by `to`, it occurs no more, provided the
/// two keep apart.
pub proof fn lemma_replaced_leaves_none(text: Seq<char>, from: Seq<char>, to: Seq<char>)
    requires
        keeps_apart(from, to),
    ensures
        !occurs_in(replaced(text, from, to), from),
{
    assert forall|at: int| #[trigger] occurs_at(text, from, at) implies starts_with(
        text.skip(at),
        from,
    ) by {
        assert(text.skip(at).subrange(0, from.len() as int) =~= text.subrange(
            at,
            at + from.len(),
        ));
    }
    lemma_replaced_clears(text, from, to, from);
}

/// A pattern that does not occur in `text` does not occur either once
/// `from` has been replaced by `to`, provided the pattern and `to` keep
/// apart.
pub proof fn lemma_replaced_brings_none(
    text: Seq<char>,
    from: Seq<char>,
    to: Seq<char>,
    pattern: Seq<char>,
)
    requires
        keeps_apart(pattern, to),
        !occurs_in(text, pattern),
    ensures
        !occurs_in(replaced(text, from, to), pattern),
{
    lemma_replaced_clears(text, from, to, pattern);
}

/// The characters of `text`, one by one.
pub fn chars_of(text: &str) -> (out: Vec<char>)
    ensures
        out@ == text@,
{
    let mut out: Vec<char> = Vec::new();
    for c in it: text.chars()
        invariant
            out@ == it.seq().take(it.index() as int),
    {
        out.push(c);
    }
    out
}

/// The string made of `chars`.
pub fn string_of(chars: &[char]) -> (out: String)
    ensures
        out@ == chars@,
{
    let mut out = String::new();
    let mut i: usize = 0;
    while i < chars.len()
        invariant
            i <= chars.len(),
            out@ == chars@.take(i as int),
        decreases chars.len() - i,
    {
        out.push(chars[i]);
        i += 1;
    }
    out
}

/// `left` followed by `right`.
pub fn join(left: &[char], right: &[char]) -> (out: Vec<char>)
    ensures
        out@ == left@ + right@,
{
    let mut out: Vec<char> = Vec::new();
    let mut i: usize = 0;
    while i < left.len()
        invariant
            i <= left.len(),
            out@ == left@.take(i as int),
        decreases left.len() - i,
    {
        out.push(left[i]);
        i += 1;
    }
    let mut j: usize = 0;
    while j < right.len()
        invariant
            j <= right.len(),
            out@ == left@ + right@.take(j as int),
        decreases right.len() - j,
    {
        out.push(right[j]);
        j += 1;
    }
    out
}

/// Whether the two slices hold the same characters.
pub fn same(left: &[char], right: &[char]) -> (r: bool)
    ensures
        r == (left@ == right@),
{
    assert(left@.subrange(0, left@.len() as int) =~= left@);
    left.len() == right.len() && matches_at(left, right, 0)
}

/// Whether `pattern` stands in `text` at index `at`.
pub fn matches_at(text: &[char], pattern: &[char], at: usize) -> (r: bool)
    ensures
        r == occurs_at(text@, pattern@, at as int),
{
    if pattern.len() > text.len() || at > text.len() - pattern.len() {
        return false;
    }
    let mut i: usize = 0;
    while i < pattern.len()
        invariant
            at + pattern.len() <= text.len(),
            i <= pattern.len(),
            forall|j: int| 0 <= j < i ==> text@[at + j] == pattern@[j],
        decreases pattern.len() - i,
    {
        if text[at + i] != pattern[i] {
            assert(text@.subrange(at as int, at + pattern.len())[i as int] != pattern@[i as int]);
            return false;
        }
        i += 1;
    }
    assert(text@.subrange(at as int, at + pattern.len()) =~= pattern@);
    true
}

/// Whether `text` begins with `prefix`.
pub fn begins_with(text: &[char], prefix: &[char]) -> (r: bool)
    ensures
        r == starts_with(text@, prefix@),
{
    matches_at(text, prefix, 0)
}

/// Whether `pattern` stands somewhere in `text`.
pub fn contains(text: &[char], pattern: &[char]) -> (r: bool)
    ensures
        r == occurs_in(text@, pattern@),
{
    if pattern.len() > text.len() {
        return false;
    }
    let last: usize = text.len() - pattern.len();
    let mut at: usize = 0;
    while at < last
        invariant
            last == text.len() - pattern.len(),
            at <= last,
            forall|k: int| 0 <= k < at ==> !occurs_at(text@, pattern@, k),
        decreases last - at,
    {
        if matches_at(text, pattern, at) {
            return true;
        }
        at += 1;
    }
    matches_at(text, pattern, last)
}

/// `text` with every occurrence of `from` replaced by `to`.
pub fn replace(text: &[char], from: &[char], to: &[char]) -> (out: Vec<char>)
    ensures
        out@ == replaced(text@, from@, to@),
{
    let mut out: Vec<char> = Vec::new();
    let mut i: usize = 0;
    assert(text@.skip(0) =~= text@);
    while i < text.len()
        invariant
            i <= text.len(),
            out@ + replaced(text@.skip(i as int), from@, to@) == replaced(text@, from@, to@),
        decreases text.len() - i,
    {
        let ghost rest = text@.skip(i as int);
        let ghost before = out@;
        if from.len() > 0 && matches_at(text, from, i) {
            assert(rest.subrange(0, from@.len() as int) =~= text@.subrange(
                i as int,
                i + from@.len(),
            ));
            assert(rest.skip(from@.len() as int) =~= text@.skip(i + from@.len()));
            let mut k: usize = 0;
            while k < to.len()
                invariant
                    k <= to.len(),
                    out@ == before + to@.take(k as int),
                decreases to.len() - k,
            {
                out.push(to[k]);
                k += 1;
            }
            assert(to@.take(to@.len() as int) =~= to@);
            assert(before + (to@ + replaced(rest.skip(from@.len() as int), from@, to@)) =~= (before
                + to@) + replaced(rest.skip(from@.len() as int), from@, to@));
            i += from.len();
        } else {
            assert(!starts_with(rest, from@) || from@.len() == 0) by {
                if from@.len() > 0 && starts_with(rest, from@) {
                    assert(rest.subrange(0, from@.len() as int) =~= text@.subrange(
                        i as int,
                        i + from@.len(),
                    ));
                }
            }
            assert(rest.skip(1) =~= text@.skip(i + 1));
            out.push(text[i]);
            assert(before + (seq![rest[0]] + replaced(rest.skip(1), from@, to@)) =~= before.push(
                rest[0],
            ) + replaced(rest.skip(1), from@, to@));
            i += 1;
        }
    }
    assert(text@.skip(text@.len() as int) =~= Seq::<char>::empty());
    out
}

/// Whether `text` holds the character `c`.
pub fn has_char(text: &str, c: char) -> (r: bool)
    ensures
        r == text@.contains(c),
{
    let mut seen = false;
    for d in it: text.chars()
        invariant
            it.seq() == text@,
            seen == it.seq().take(it.index() as int).contains(c),
    {
        let ghost so_far = it.seq().take(it.index() as int);
        let ghost next = it.seq().take(it.index() + 1);
        assert(next =~= so_far.push(d));
        assert(next.contains(c) == (so_far.contains(c) || d == c)) by {
            if so_far.contains(c) {
                let k = choose|k: int| 0 <= k < so_far.len() && so_far[k] == c;
                assert(next[k] == c);
            }
            if d == c {
                assert(next[so_far.len() as int] == c);
            }
        }
        if d == c {
            seen = true;
        }
    }
    assert(text@.take(text@.len() as int) =~= text@);
    seen
}

} // verus!
