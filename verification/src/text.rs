//! Strings seen as sequences of characters.

use vstd::prelude::*;

verus! {

/// The characters of `s`, in order.
pub fn chars_of(s: &str) -> (chars: Vec<char>)
    ensures
        chars@ == s@,
{
    let mut chars: Vec<char> = Vec::new();
    let mut rest = s.chars();
    for c in iter: rest
        invariant
            iter.seq() == s@,
            chars@ == s@.take(iter.index()),
    {
        chars.push(c);
    }
    chars
}

/// Whether the characters of `chars` from position `from` up to, and without,
/// position `to` spell `word`.
pub fn spells(chars: &Vec<char>, from: usize, to: usize, word: &str) -> (yes: bool)
    requires
        from <= to <= chars.len(),
    ensures
        yes == (chars@.subrange(from as int, to as int) == word@),
{
    let letters = chars_of(word);
    if letters.len() != to - from {
        return false;
    }
    let mut i: usize = 0;
    while i < letters.len()
        invariant
            from <= to <= chars.len(),
            letters@ == word@,
            letters.len() == to - from,
            i <= letters.len(),
            forall|j: int| 0 <= j < i ==> chars[from + j] == letters[j],
        decreases letters.len() - i,
    {
        if chars[from + i] != letters[i] {
            return false;
        }
        i += 1;
    }
    assert(chars@.subrange(from as int, to as int) =~= word@);
    true
}

/// Whether `a` and `b` are the same text.
pub fn same_text(a: &str, b: &str) -> (yes: bool)
    ensures
        yes == (a@ == b@),
{
    let chars = chars_of(a);
    assert(chars@.subrange(0, chars.len() as int) =~= a@);
    spells(&chars, 0, chars.len(), b)
}

/// The first position of `needle` in `chars` at or after `from`, and
/// `chars.len()` if there is none.
pub fn position_from(chars: &Vec<char>, from: usize, needle: char) -> (at: usize)
    requires
        from <= chars.len(),
    ensures
        from <= at <= chars.len(),
        at < chars.len() ==> chars[at as int] == needle,
        forall|j: int| from <= j < at ==> chars[j] != needle,
{
    let mut at: usize = from;
    while at < chars.len() && chars[at] != needle
        invariant
            from <= at <= chars.len(),
            forall|j: int| from <= j < at ==> chars[j] != needle,
        decreases chars.len() - at,
    {
        at += 1;
    }
    at
}

/// The last position of `needle` in `chars` before `to`, if there is one.
pub fn position_before(chars: &Vec<char>, to: usize, needle: char) -> (at: Option<usize>)
    requires
        to <= chars.len(),
    ensures
        match at {
            Some(i) => i < to && chars[i as int] == needle && forall|j: int|
                i < j < to ==> chars[j] != needle,
            None => forall|j: int| 0 <= j < to ==> chars[j] != needle,
        },
{
    let mut end: usize = to;
    while end > 0
        invariant
            end <= to <= chars.len(),
            forall|j: int| end <= j < to ==> chars[j] != needle,
        decreases end,
    {
        if chars[end - 1] == needle {
            return Some(end - 1);
        }
        end -= 1;
    }
    None
}

/// An occurrence of `needle` with none in front of it is the first one.
pub proof fn lemma_first_occurrence<A>(s: Seq<A>, needle: A, i: int)
    requires
        0 <= i < s.len(),
        s[i] == needle,
        forall|j: int| 0 <= j < i ==> s[j] != needle,
    ensures
        s.index_of_first(needle) == Some(i),
{
    s.index_of_first_ensures(needle);
}

/// An occurrence of `needle` with none behind it is the last one.
pub proof fn lemma_last_occurrence<A>(s: Seq<A>, needle: A, i: int)
    requires
        0 <= i < s.len(),
        s[i] == needle,
        forall|j: int| i < j < s.len() ==> s[j] != needle,
    ensures
        s.index_of_last(needle) == Some(i),
{
    s.index_of_last_ensures(needle);
}

/// A sequence without `needle` has neither a first nor a last occurrence of it.
pub proof fn lemma_no_occurrence<A>(s: Seq<A>, needle: A)
    requires
        forall|j: int| 0 <= j < s.len() ==> s[j] != needle,
    ensures
        s.index_of_first(needle) is None,
        s.index_of_last(needle) is None,
{
    s.index_of_first_ensures(needle);
    s.index_of_last_ensures(needle);
}

} // verus!
