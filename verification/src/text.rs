//! Searching and comparing text, character by character.

use vstd::prelude::*;

verus! {

/// `String::push` appends one character at the end and leaves the rest as it was.
pub assume_specification[ String::push ](s: &mut String, c: char)
    ensures
        final(s)@ == old(s)@.push(c),
;

/// The length of the longest prefix of `text` that holds no `c`: the place of
/// the first `c`, or the length of `text` where there is none.
pub open spec fn prefix_without(text: Seq<char>, c: char) -> nat
    decreases text.len(),
{
    if text.len() == 0 || text[0] == c {
        0
    } else {
        1 + prefix_without(text.drop_first(), c)
    }
}

/// Whether `pattern` stands in `text` from place `at` on.
pub open spec fn occurs_at(pattern: Seq<char>, text: Seq<char>, at: int) -> bool {
    0 <= at && at + pattern.len() <= text.len() && text.subrange(at, at + pattern.len())
        == pattern
}

/// Whether `pattern` stands somewhere in `text`.
pub open spec fn occurs_in(pattern: Seq<char>, text: Seq<char>) -> bool {
    exists|at: int| occurs_at(pattern, text, at)
}

/// `prefix_without` is the one place before which there is no `c` and at
/// which there is one, unless the text has ended.
pub proof fn lemma_prefix_without(text: Seq<char>, c: char, at: int)
    requires
        0 <= at <= text.len(),
        forall|i: int| 0 <= i < at ==> text[i] != c,
        at < text.len() ==> text[at] == c,
    ensures
        prefix_without(text, c) == at,
    decreases text.len(),
{
    if at > 0 {
        lemma_prefix_without(text.drop_first(), c, at - 1);
    }
}

/// The characters of `s`, in order.
pub fn chars_of(s: &str) -> (chars: Vec<char>)
    ensures
        chars@ == s@,
{
    let mut chars: Vec<char> = Vec::new();
    for c in it: s.chars()
        invariant
            it.seq() == s@,
            chars@ == s@.take(it.index() as int),
    {
        chars.push(c);
    }
    chars
}

/// Appends `chars` to `out`.
pub fn push_all(out: &mut String, chars: &[char])
    ensures
        final(out)@ == old(out)@ + chars@,
{
    let mut i: usize = 0;
    while i < chars.len()
        invariant
            i <= chars.len(),
            out@ == old(out)@ + chars@.take(i as int),
        decreases chars.len() - i,
    {
        out.push(chars[i]);
        i += 1;
    }
}

/// A string of the characters `chars`.
pub fn string_of(chars: &[char]) -> (s: String)
    ensures
        s@ == chars@,
{
    let mut s = String::new();
    push_all(&mut s, chars);
    s
}

/// Whether `left` and `right` hold the same characters.
pub fn same_text(left: &[char], right: &[char]) -> (same: bool)
    ensures
        same == (left@ == right@),
{
    if left.len() != right.len() {
        return false;
    }
    let mut i: usize = 0;
    while i < left.len()
        invariant
            i <= left.len(),
            left.len() == right.len(),
            left@.take(i as int) == right@.take(i as int),
        decreases left.len() - i,
    {
        if left[i] != right[i] {
            return false;
        }
        assert(left@.take(i + 1) =~= left@.take(i as int).push(left@[i as int]));
        assert(right@.take(i + 1) =~= right@.take(i as int).push(right@[i as int]));
        i += 1;
    }
    assert(left@ =~= left@.take(i as int) && right@ =~= right@.take(i as int));
    true
}

/// Whether `text` is, letter for letter, `other`.
pub fn equals(text: &[char], other: &str) -> (same: bool)
    ensures
        same == (text@ == other@),
{
    let wanted = chars_of(other);
    same_text(text, wanted.as_slice())
}

/// Whether `text` ends with `suffix`.
pub fn ends_with(text: &[char], suffix: &str) -> (ends: bool)
    ensures
        ends == suffix@.is_suffix_of(text@),
{
    let tail = chars_of(suffix);
    if tail.len() > text.len() {
        return false;
    }
    let offset = text.len() - tail.len();
    same_text(&text[offset..text.len()], tail.as_slice())
}

/// The place of the first `c` in `text`, or the length of `text` where it holds none.
pub fn find_char(text: &[char], c: char) -> (at: usize)
    ensures
        at == prefix_without(text@, c),
        at <= text.len(),
        forall|i: int| 0 <= i < at ==> text@[i] != c,
        at < text.len() ==> text@[at as int] == c,
{
    let mut at: usize = 0;
    while at < text.len() && text[at] != c
        invariant
            at <= text.len(),
            forall|i: int| 0 <= i < at ==> text@[i] != c,
        decreases text.len() - at,
    {
        at += 1;
    }
    proof {
        lemma_prefix_without(text@, c, at as int);
    }
    at
}

/// Whether `pattern` stands somewhere in `text`.
pub fn contains(text: &[char], pattern: &str) -> (found: bool)
    ensures
        found == occurs_in(pattern@, text@),
{
    let sought = chars_of(pattern);
    if sought.len() > text.len() {
        assert forall|at: int| !occurs_at(pattern@, text@, at) by {}
        return false;
    }
    let last = text.len() - sought.len();
    let mut at: usize = 0;
    while at < last
        invariant
            at <= last,
            sought@ == pattern@,
            last == text.len() - sought.len(),
            forall|i: int| 0 <= i < at ==> !occurs_at(pattern@, text@, i),
        decreases last - at,
    {
        if same_text(&text[at..at + sought.len()], sought.as_slice()) {
            assert(occurs_at(pattern@, text@, at as int));
            return true;
        }
        at += 1;
    }
    let found = same_text(&text[last..text.len()], sought.as_slice());
    proof {
        if found {
            assert(occurs_at(pattern@, text@, last as int));
        } else {
            assert forall|i: int| !occurs_at(pattern@, text@, i) by {}
        }
    }
    found
}

} // verus!
