//! Text as sequences of characters: finding a separator, splitting, copying.

use vstd::prelude::*;

verus! {

/// Index of the first occurrence of `sep` in `s`, or `s.len()` if there is none.
pub open spec fn first_sep(s: Seq<char>, sep: char) -> int
    decreases s.len(),
{
    if s.len() == 0 || s[0] == sep {
        0
    } else {
        1 + first_sep(s.drop_first(), sep)
    }
}

/// The segments of `s` between occurrences of `sep`, in order. A text without
/// `sep` is its own single segment; the empty text has one empty segment.
pub open spec fn split_on(s: Seq<char>, sep: char) -> Seq<Seq<char>>
    decreases s.len(),
{
    let i = first_sep(s, sep);
    if 0 <= i < s.len() {
        seq![s.take(i)] + split_on(s.skip(i + 1), sep)
    } else {
        seq![s]
    }
}

/// `first_sep` stays inside the text, passes over no separator, and stops on one.
pub proof fn lemma_first_sep(s: Seq<char>, sep: char)
    ensures
        0 <= first_sep(s, sep) <= s.len(),
        forall|j: int| 0 <= j < first_sep(s, sep) ==> s[j] != sep,
        first_sep(s, sep) < s.len() ==> s[first_sep(s, sep)] == sep,
    decreases s.len(),
{
    if s.len() == 0 || s[0] == sep {
    } else {
        let t = s.drop_first();
        lemma_first_sep(t, sep);
        assert forall|j: int| 0 <= j < first_sep(s, sep) implies s[j] != sep by {
            if j > 0 {
                assert(s[j] == t[j - 1]);
            }
        }
        if first_sep(s, sep) < s.len() {
            assert(s[first_sep(s, sep)] == t[first_sep(t, sep)]);
        }
    }
}

/// A position that no separator precedes, and that holds one or ends the
/// text, is the one `first_sep` gives.
pub proof fn lemma_first_sep_at(s: Seq<char>, sep: char, p: int)
    requires
        0 <= p <= s.len(),
        forall|j: int| 0 <= j < p ==> s[j] != sep,
        p < s.len() ==> s[p] == sep,
    ensures
        first_sep(s, sep) == p,
    decreases s.len(),
{
    if s.len() == 0 || s[0] == sep {
    } else {
        let t = s.drop_first();
        assert forall|j: int| 0 <= j < p - 1 implies t[j] != sep by {
            assert(t[j] == s[j + 1]);
        }
        if p < s.len() {
            assert(t[p - 1] == s[p]);
        }
        lemma_first_sep_at(t, sep, p - 1);
    }
}

/// A split always has a first segment: the text before the first separator.
pub proof fn lemma_split_first(s: Seq<char>, sep: char)
    ensures
        split_on(s, sep).len() >= 1,
        split_on(s, sep)[0] == s.take(first_sep(s, sep)),
        first_sep(s, sep) < s.len() ==> split_on(s, sep) == seq![s.take(first_sep(s, sep))]
            + split_on(s.skip(first_sep(s, sep) + 1), sep),
        first_sep(s, sep) == s.len() ==> split_on(s, sep) == seq![s],
{
    lemma_first_sep(s, sep);
    let i = first_sep(s, sep);
    if i == s.len() {
        assert(s.take(i) == s);
    }
}

/// A text without the separator is its own single segment.
pub proof fn lemma_split_single(a: Seq<char>, sep: char)
    requires
        !a.contains(sep),
    ensures
        split_on(a, sep) == seq![a],
{
    lemma_first_sep_at(a, sep, a.len() as int);
}

/// A text that starts with a separator-free part and a separator splits
/// into that part and the segments of the rest.
pub proof fn lemma_split_prefix(a: Seq<char>, rest: Seq<char>, sep: char)
    requires
        !a.contains(sep),
    ensures
        split_on(a + seq![sep] + rest, sep) == seq![a] + split_on(rest, sep),
{
    let s = a + seq![sep] + rest;
    assert forall|j: int| 0 <= j < a.len() implies s[j] != sep by {
        assert(s[j] == a[j]);
    }
    assert(s[a.len() as int] == sep);
    lemma_first_sep_at(s, sep, a.len() as int);
    assert(s.take(a.len() as int) == a);
    assert(s.skip(a.len() as int + 1) == rest);
}

/// How often `sep` occurs in `s`.
pub open spec fn count_of(s: Seq<char>, sep: char) -> nat
    decreases s.len(),
{
    if s.len() == 0 {
        0
    } else if s[0] == sep {
        1 + count_of(s.drop_first(), sep)
    } else {
        count_of(s.drop_first(), sep)
    }
}

/// A text has one segment more than it has separators.
pub proof fn lemma_segment_count(s: Seq<char>, sep: char)
    ensures
        split_on(s, sep).len() == count_of(s, sep) + 1,
    decreases s.len(),
{
    lemma_first_sep(s, sep);
    lemma_count_behind_first(s, sep);
    let i = first_sep(s, sep);
    if i < s.len() {
        lemma_segment_count(s.skip(i + 1), sep);
    }
}

/// The separators of a text are the first one and those behind it.
proof fn lemma_count_behind_first(s: Seq<char>, sep: char)
    ensures
        first_sep(s, sep) < s.len() ==> count_of(s, sep) == 1 + count_of(
            s.skip(first_sep(s, sep) + 1),
            sep,
        ),
        first_sep(s, sep) >= s.len() ==> count_of(s, sep) == 0,
    decreases s.len(),
{
    lemma_first_sep(s, sep);
    if s.len() == 0 {
    } else if s[0] == sep {
        assert(s.skip(1) == s.drop_first());
    } else {
        let t = s.drop_first();
        lemma_first_sep(t, sep);
        lemma_count_behind_first(t, sep);
        if first_sep(t, sep) < t.len() {
            assert(s.skip(first_sep(s, sep) + 1) == t.skip(first_sep(t, sep) + 1));
        }
    }
}

/// The characters of a string, in order.
pub(crate) fn chars_of(s: &str) -> (v: Vec<char>)
    ensures
        v@ == s@,
{
    let mut v: Vec<char> = Vec::new();
    for c in it: s.chars()
        invariant
            v@ == it.seq().take(it.index()),
            it.seq() == s@,
    {
        v.push(c);
    }
    v
}

/// The first position at or after `from` that holds `sep`, or the length of
/// `chars` if none does.
pub(crate) fn find_sep(chars: &Vec<char>, from: usize, sep: char) -> (p: usize)
    requires
        from <= chars.len(),
    ensures
        from <= p <= chars.len(),
        p == from + first_sep(chars@.skip(from as int), sep),
{
    let mut p: usize = from;
    while p < chars.len() && chars[p] != sep
        invariant
            from <= p <= chars.len(),
            forall|j: int| from <= j < p ==> chars@[j] != sep,
        decreases chars.len() - p,
    {
        p += 1;
    }
    proof {
        let rest = chars@.skip(from as int);
        assert forall|j: int| 0 <= j < p - from implies rest[j] != sep by {
            assert(rest[j] == chars@[from + j]);
        }
        lemma_first_sep_at(rest, sep, p - from);
    }
    p
}

/// An owned copy of the characters `from..to` of `s`.
pub(crate) fn copy_range(s: &str, from: usize, to: usize) -> (r: String)
    requires
        from <= to <= s@.len(),
    ensures
        r@ == s@.subrange(from as int, to as int),
{
    s.substring_char(from, to).to_owned()
}

} // verus!
