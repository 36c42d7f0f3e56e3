//! The composite identifier `platform_uid` and the three keys derived from it.

use vstd::prelude::*;
use crate::text::{
    chars_of, copy_range, count_of, find_sep, lemma_segment_count, lemma_split_first,
    lemma_split_prefix, lemma_split_single, split_on,
};

verus! {

/// The three keys that a composite identifier yields, as texts: report id,
/// target id and report type.
pub type DerivedKeys = (Option<Seq<char>>, Option<Seq<char>>, Option<Seq<char>>);

/// What decomposition yields: the first three hyphen-delimited segments where
/// the identifier is present and has at least three, and nothing otherwise.
pub open spec fn derived_keys(uid: Option<Seq<char>>) -> DerivedKeys {
    match uid {
        None => (None, None, None),
        Some(s) => {
            let parts = split_on(s, '-');
            if parts.len() >= 3 {
                (Some(parts[0]), Some(parts[1]), Some(parts[2]))
            } else {
                (None, None, None)
            }
        },
    }
}

/// Splits a composite identifier into report id, target id and report type.
///
/// The segments are taken verbatim: nothing is trimmed or checked, and
/// segments after the third are ignored.
pub fn decompose_uid(uid: Option<&String>) -> (keys: (Option<String>, Option<String>, Option<String>))
    ensures
        keys.deep_view() == derived_keys(uid.deep_view()),
{
    let s = match uid {
        None => {
            return (None, None, None);
        },
        Some(s) => s.as_str(),
    };
    let chars = chars_of(s);
    let n = chars.len();
    proof {
        lemma_split_first(s@, '-');
    }
    let first_dash = find_sep(&chars, 0, '-');
    assert(chars@.skip(0) == chars@);
    if first_dash >= n {
        return (None, None, None);
    }
    let ghost after_first = s@.skip(first_dash + 1);
    proof {
        lemma_split_first(after_first, '-');
    }
    let second_dash = find_sep(&chars, first_dash + 1, '-');
    if second_dash >= n {
        return (None, None, None);
    }
    let ghost after_second = s@.skip(second_dash + 1);
    proof {
        lemma_split_first(after_second, '-');
        assert(after_second == after_first.skip(second_dash - first_dash));
    }
    let third_end = find_sep(&chars, second_dash + 1, '-');
    proof {
        let parts = split_on(s@, '-');
        assert(parts[0] == s@.subrange(0, first_dash as int));
        assert(split_on(after_first, '-')[0] == s@.subrange(first_dash + 1, second_dash as int));
        assert(split_on(after_second, '-')[0] == s@.subrange(second_dash + 1, third_end as int));
        assert(parts[1] == split_on(after_first, '-')[0]);
        assert(parts[2] == split_on(after_second, '-')[0]);
    }
    (
        Some(copy_range(s, 0, first_dash)),
        Some(copy_range(s, first_dash + 1, second_dash)),
        Some(copy_range(s, second_dash + 1, third_end)),
    )
}

/// An identifier with at least three segments yields exactly its first
/// three, whatever follows them.
pub proof fn lemma_three_segments_yield_keys(uid: Seq<char>)
    requires
        split_on(uid, '-').len() >= 3,
    ensures
        derived_keys(Some(uid)) == (
            Some(split_on(uid, '-')[0]),
            Some(split_on(uid, '-')[1]),
            Some(split_on(uid, '-')[2]),
        ),
{
}

/// Three hyphen-free segments are the keys, with or without a tail behind
/// them: what follows the third segment changes nothing.
pub proof fn lemma_trailing_segments_ignored(
    a: Seq<char>,
    b: Seq<char>,
    c: Seq<char>,
    tail: Seq<char>,
)
    requires
        !a.contains('-'),
        !b.contains('-'),
        !c.contains('-'),
    ensures
        derived_keys(Some(a + seq!['-'] + b + seq!['-'] + c)) == (Some(a), Some(b), Some(c)),
        derived_keys(Some(a + seq!['-'] + b + seq!['-'] + c + seq!['-'] + tail)) == (
            Some(a),
            Some(b),
            Some(c),
        ),
{
    let d = seq!['-'];
    let short = a + d + b + d + c;
    let long = a + d + b + d + c + d + tail;
    assert(short == a + d + (b + d + c));
    assert(long == a + d + (b + d + (c + d + tail)));
    assert(b + d + (c + d + tail) == b + d + (c + d + tail));
    lemma_split_prefix(a, b + d + c, '-');
    lemma_split_prefix(b, c, '-');
    lemma_split_single(c, '-');
    lemma_split_prefix(a, b + d + (c + d + tail), '-');
    lemma_split_prefix(b, c + d + tail, '-');
    lemma_split_prefix(c, tail, '-');
    lemma_split_first(tail, '-');
    let parts = split_on(long, '-');
    assert(parts == seq![a] + (seq![b] + (seq![c] + split_on(tail, '-'))));
    assert(parts.len() >= 3 && parts[0] == a && parts[1] == b && parts[2] == c);
    let few = split_on(short, '-');
    assert(few == seq![a] + (seq![b] + seq![c]));
    assert(few.len() == 3 && few[0] == a && few[1] == b && few[2] == c);
}

/// The keys are never partly set: an identifier yields all three or none.
pub proof fn lemma_keys_all_or_none(uid: Option<Seq<char>>)
    ensures
        derived_keys(uid).0 is Some <==> derived_keys(uid).1 is Some,
        derived_keys(uid).1 is Some <==> derived_keys(uid).2 is Some,
{
}

/// An absent identifier, or one with fewer than three segments, yields no
/// key at all.
pub proof fn lemma_short_identifier_yields_nothing(uid: Option<Seq<char>>)
    requires
        uid matches Some(s) ==> split_on(s, '-').len() < 3,
    ensures
        derived_keys(uid) == (None::<Seq<char>>, None::<Seq<char>>, None::<Seq<char>>),
{
}

/// An identifier has fewer than three segments exactly if it has fewer than
/// two hyphens, and then it yields no key.
pub proof fn lemma_fewer_than_two_hyphens(uid: Seq<char>)
    ensures
        split_on(uid, '-').len() < 3 <==> count_of(uid, '-') < 2,
        count_of(uid, '-') < 2 ==> derived_keys(Some(uid)) == (
            None::<Seq<char>>,
            None::<Seq<char>>,
            None::<Seq<char>>,
        ),
{
    lemma_segment_count(uid, '-');
}

} // verus!
