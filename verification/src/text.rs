//! Delimited text: splitting a character sequence into segments and joining
//! segments back together.
//!
//! The model is `Seq<char>`. `split_on` follows the convention of
//! `str::split`: a text with `n` delimiters has `n + 1` segments, some of
//! which may be empty, and the empty text has one empty segment.

use vstd::prelude::*;
use vstd::slice::slice_subrange;

verus! {

/// How often `d` occurs in `s`.
pub open spec fn count_of(s: Seq<char>, d: char) -> nat
    decreases s.len(),
{
    if s.len() == 0 {
        0
    } else {
        count_of(s.drop_last(), d) + if s.last() == d {
            1nat
        } else {
            0nat
        }
    }
}

/// The segments of `s` between occurrences of `d`, in order.
pub open spec fn split_on(s: Seq<char>, d: char) -> Seq<Seq<char>>
    decreases s.len(),
{
    if s.len() == 0 {
        seq![Seq::<char>::empty()]
    } else {
        let before = split_on(s.drop_last(), d);
        if s.last() == d {
            before.push(Seq::<char>::empty())
        } else {
            before.drop_last().push(before.last().push(s.last()))
        }
    }
}

/// The segments `parts` written one after another with `d` between
/// neighbours.
pub open spec fn join_with(parts: Seq<Seq<char>>, d: char) -> Seq<char>
    decreases parts.len(),
{
    if parts.len() == 0 {
        Seq::<char>::empty()
    } else if parts.len() == 1 {
        parts[0]
    } else {
        join_with(parts.drop_last(), d) + seq![d] + parts.last()
    }
}

/// The part of `s` in front of the first `d`; all of `s` where it holds none.
pub open spec fn before_first(s: Seq<char>, d: char) -> Seq<char> {
    split_on(s, d)[0]
}

/// The character sequences that a vector of segments stands for.
pub open spec fn views(parts: Seq<Vec<char>>) -> Seq<Seq<char>> {
    parts.map_values(|p: Vec<char>| p@)
}

/// A text always has one segment more than it has delimiters.
pub proof fn lemma_split_len(s: Seq<char>, d: char)
    ensures
        split_on(s, d).len() == count_of(s, d) + 1,
    decreases s.len(),
{
    if s.len() > 0 {
        lemma_split_len(s.drop_last(), d);
    }
}

/// No segment of a split holds the delimiter.
pub proof fn lemma_split_segments_free(s: Seq<char>, d: char)
    ensures
        forall|i: int| 0 <= i < split_on(s, d).len() ==> !(#[trigger] split_on(s, d)[i]).contains(d),
    decreases s.len(),
{
    if s.len() > 0 {
        lemma_split_segments_free(s.drop_last(), d);
        lemma_split_len(s.drop_last(), d);
        let before = split_on(s.drop_last(), d);
        assert forall|i: int| 0 <= i < split_on(s, d).len() implies !(#[trigger] split_on(
            s,
            d,
        )[i]).contains(d) by {
            if i < before.len() - 1 {
                assert(split_on(s, d)[i] == before[i]);
            } else if s.last() == d {
                if i == before.len() - 1 {
                    assert(split_on(s, d)[i] == before[i]);
                }
            } else {
                let seg = before.last().push(s.last());
                assert(split_on(s, d)[i] == seg);
                assert(!before[before.len() - 1].contains(d));
                if seg.contains(d) {
                    let j = choose|j: int| 0 <= j < seg.len() && seg[j] == d;
                    if j < before.last().len() {
                        assert(before.last()[j] == d);
                    }
                }
            }
        }
    }
}

/// A text without the delimiter is its own single segment.
pub proof fn lemma_split_free(s: Seq<char>, d: char)
    requires
        !s.contains(d),
    ensures
        split_on(s, d) == seq![s],
    decreases s.len(),
{
    if s.len() == 0 {
        assert(s == Seq::<char>::empty());
    } else {
        let init = s.drop_last();
        assert(s[s.len() - 1] != d);
        assert forall|j: int| 0 <= j < init.len() implies init[j] != d by {
            assert(s[j] == init[j]);
        }
        lemma_split_free(init, d);
        assert(init.push(s.last()) == s);
        assert(split_on(s, d) == seq![s]);
    }
}

/// Splitting a text that was put together from two texts and a delimiter
/// gives the segments of the first followed by those of the second.
pub proof fn lemma_split_concat(a: Seq<char>, b: Seq<char>, d: char)
    ensures
        split_on(a + seq![d] + b, d) == split_on(a, d) + split_on(b, d),
    decreases b.len(),
{
    let whole = a + seq![d] + b;
    lemma_split_len(a, d);
    if b.len() == 0 {
        assert(whole.drop_last() == a);
        assert(split_on(whole, d) == split_on(a, d).push(Seq::<char>::empty()));
        assert(split_on(a, d).push(Seq::<char>::empty()) == split_on(a, d) + split_on(b, d));
    } else {
        lemma_split_concat(a, b.drop_last(), d);
        lemma_split_len(b.drop_last(), d);
        assert(whole.drop_last() == a + seq![d] + b.drop_last());
        assert(whole.last() == b.last());
        let left = split_on(a, d);
        let right = split_on(b.drop_last(), d);
        let before = split_on(whole.drop_last(), d);
        assert(before == left + right);
        if b.last() == d {
            assert(before.push(Seq::<char>::empty()) == left + right.push(Seq::<char>::empty()));
        } else {
            assert(before.last() == right.last());
            assert(before.drop_last() == left + right.drop_last());
            assert(before.drop_last().push(before.last().push(b.last())) == left
                + right.drop_last().push(right.last().push(b.last())));
        }
    }
}

/// Joining two non-empty runs of segments, one after the other, is joining
/// each and putting a delimiter between the results.
pub proof fn lemma_join_concat(a: Seq<Seq<char>>, b: Seq<Seq<char>>, d: char)
    requires
        a.len() > 0,
        b.len() > 0,
    ensures
        join_with(a + b, d) == join_with(a, d) + seq![d] + join_with(b, d),
    decreases b.len(),
{
    let whole = a + b;
    assert(whole.drop_last() == a + b.drop_last());
    assert(whole.last() == b.last());
    if b.len() == 1 {
        assert(whole.drop_last() == a);
    } else {
        lemma_join_concat(a, b.drop_last(), d);
        assert(join_with(whole, d) == join_with(a, d) + seq![d] + (join_with(b.drop_last(), d)
            + seq![d] + b.last()));
    }
}

/// Joining the segments of a text with the delimiter that split it gives the
/// text back.
pub proof fn lemma_join_split(s: Seq<char>, d: char)
    ensures
        join_with(split_on(s, d), d) == s,
    decreases s.len(),
{
    if s.len() > 0 {
        let init = s.drop_last();
        lemma_join_split(init, d);
        lemma_split_len(init, d);
        let before = split_on(init, d);
        if s.last() == d {
            let after = before.push(Seq::<char>::empty());
            assert(after.drop_last() == before);
            assert(join_with(after, d) == init + seq![d] + Seq::<char>::empty());
            assert(init + seq![d] + Seq::<char>::empty() == s);
        } else {
            let after = before.drop_last().push(before.last().push(s.last()));
            assert(after.drop_last() == before.drop_last());
            if before.len() == 1 {
                assert(before[0] == init);
                assert(after[0] == init.push(s.last()));
                assert(init.push(s.last()) == s);
            } else {
                assert(join_with(before, d) == join_with(before.drop_last(), d) + seq![d]
                    + before.last());
                assert(join_with(after, d) == join_with(before.drop_last(), d) + seq![d]
                    + before.last().push(s.last()));
                assert(join_with(before.drop_last(), d) + seq![d] + before.last().push(s.last())
                    == (join_with(before.drop_last(), d) + seq![d] + before.last()).push(
                    s.last(),
                ));
                assert(init.push(s.last()) == s);
            }
        }
    }
}

/// Splitting what was joined from delimiter-free segments gives the segments
/// back.
pub proof fn lemma_split_join(parts: Seq<Seq<char>>, d: char)
    requires
        parts.len() > 0,
        forall|i: int| 0 <= i < parts.len() ==> !(#[trigger] parts[i]).contains(d),
    ensures
        split_on(join_with(parts, d), d) == parts,
    decreases parts.len(),
{
    if parts.len() == 1 {
        lemma_split_free(parts[0], d);
        assert(seq![parts[0]] == parts);
    } else {
        let init = parts.drop_last();
        assert forall|i: int| 0 <= i < init.len() implies !(#[trigger] init[i]).contains(d) by {
            assert(init[i] == parts[i]);
        }
        lemma_split_join(init, d);
        lemma_split_concat(join_with(init, d), parts.last(), d);
        lemma_split_free(parts.last(), d);
        assert(init + seq![parts.last()] == parts);
    }
}

/// Occurrences in a concatenation add up.
pub proof fn lemma_count_concat(a: Seq<char>, b: Seq<char>, d: char)
    ensures
        count_of(a + b, d) == count_of(a, d) + count_of(b, d),
    decreases b.len(),
{
    if b.len() == 0 {
        assert(a + b == a);
    } else {
        lemma_count_concat(a, b.drop_last(), d);
        assert((a + b).drop_last() == a + b.drop_last());
    }
}

/// Appending text without a delimiter lengthens the last segment and leaves
/// the others alone.
pub proof fn lemma_split_append_free(s: Seq<char>, tail: Seq<char>, d: char)
    requires
        !tail.contains(d),
    ensures
        split_on(s + tail, d) == split_on(s, d).drop_last().push(split_on(s, d).last() + tail),
    decreases tail.len(),
{
    let parts = split_on(s, d);
    lemma_split_len(s, d);
    if tail.len() == 0 {
        assert(s + tail == s);
        assert(parts.last() + tail == parts.last());
        assert(parts.drop_last().push(parts.last()) == parts);
    } else {
        let init = tail.drop_last();
        assert(tail[tail.len() - 1] != d);
        assert forall|j: int| 0 <= j < init.len() implies init[j] != d by {
            assert(tail[j] == init[j]);
        }
        lemma_split_append_free(s, init, d);
        assert((s + tail).drop_last() == s + init);
        assert((s + tail).last() == tail.last());
        let before = parts.drop_last().push(parts.last() + init);
        assert(before.drop_last() == parts.drop_last());
        assert((parts.last() + init).push(tail.last()) == parts.last() + tail);
    }
}

/// Appending to a text that holds no delimiter changes only the first
/// segment of the result, which is that text and the first segment of what
/// was appended.
pub proof fn lemma_before_first_extends(head: Seq<char>, tail: Seq<char>, d: char)
    requires
        split_on(head, d) == seq![head],
    ensures
        before_first(head + tail, d) == head + before_first(tail, d),
    decreases tail.len(),
{
    if tail.len() == 0 {
        assert(head + tail == head);
        assert(head + Seq::<char>::empty() == head);
    } else {
        let init = tail.drop_last();
        lemma_before_first_extends(head, init, d);
        lemma_split_len(head + init, d);
        lemma_split_len(init, d);
        lemma_split_len(head, d);
        lemma_count_concat(head, init, d);
        assert((head + tail).drop_last() == head + init);
        let part = split_on(init, d);
        if tail.last() != d && part.len() == 1 {
            assert((head + part[0]).push(tail.last()) == head + part[0].push(tail.last()));
        }
    }
}

/// The first segment of a text is the text up to its first delimiter: a
/// prefix of the text that holds no delimiter and is followed by one unless
/// it is the whole text.
pub proof fn lemma_before_first(s: Seq<char>, d: char)
    ensures
        before_first(s, d).len() <= s.len(),
        before_first(s, d) == s.take(before_first(s, d).len() as int),
        !before_first(s, d).contains(d),
        before_first(s, d).len() < s.len() ==> s[before_first(s, d).len() as int] == d,
    decreases s.len(),
{
    lemma_split_segments_free(s, d);
    lemma_split_len(s, d);
    if s.len() > 0 {
        let init = s.drop_last();
        lemma_before_first(init, d);
        lemma_split_len(init, d);
        let before = split_on(init, d);
        let head = before[0];
        assert(head == init.take(head.len() as int));
        if s.last() == d {
            assert(split_on(s, d)[0] == head);
            assert(init.take(head.len() as int) == s.take(head.len() as int));
            if head.len() < init.len() {
                assert(s[head.len() as int] == init[head.len() as int]);
            }
        } else if before.len() == 1 {
            lemma_join_split(init, d);
            assert(head == init);
            assert(split_on(s, d)[0] == init.push(s.last()));
            assert(init.push(s.last()) == s);
            assert(s.take(s.len() as int) == s);
        } else {
            assert(split_on(s, d)[0] == head);
            assert(init.take(head.len() as int) == s.take(head.len() as int));
            if head.len() == init.len() {
                lemma_join_split(init, d);
                lemma_join_concat(seq![head], before.skip(1), d);
                assert(seq![head] + before.skip(1) == before);
                assert(join_with(seq![head], d) == head);
                assert(false);
            }
            assert(s[head.len() as int] == init[head.len() as int]);
        }
    }
}

/// Reads the characters of `s` into a vector.
pub fn chars_of(s: &str) -> (v: Vec<char>)
    ensures
        v@ == s@,
{
    let mut v: Vec<char> = Vec::new();
    for c in it: s.chars()
        invariant
            v@ == it.seq().take(it.index() as int),
            it.seq() == s@,
    {
        v.push(c);
    }
    v
}

/// Splits `s` at every occurrence of `d`.
pub fn split(s: &[char], d: char) -> (parts: Vec<Vec<char>>)
    ensures
        views(parts@) == split_on(s@, d),
{
    let mut parts: Vec<Vec<char>> = Vec::new();
    let mut current: Vec<char> = Vec::new();
    let mut i: usize = 0;
    proof {
        assert(s@.take(0) == Seq::<char>::empty());
        assert(views(parts@).push(current@) == seq![Seq::<char>::empty()]);
    }
    while i < s.len()
        invariant
            i <= s.len(),
            views(parts@).push(current@) == split_on(s@.take(i as int), d),
        decreases s.len() - i,
    {
        let ghost seen = s@.take(i as int);
        let ghost before = views(parts@).push(current@);
        proof {
            assert(s@.take(i + 1).drop_last() == seen);
            assert(s@.take(i + 1).last() == s@[i as int]);
            assert(before.drop_last() == views(parts@));
        }
        if s[i] == d {
            parts.push(current);
            current = Vec::new();
            proof {
                assert(views(parts@) == before);
            }
        } else {
            current.push(s[i]);
        }
        i += 1;
    }
    proof {
        assert(s@.take(i as int) == s@);
        assert(views(parts@.push(current)) == views(parts@).push(current@));
    }
    parts.push(current);
    parts
}

/// Writes the segments `parts` one after another with `d` between
/// neighbours.
pub fn join(parts: &[Vec<char>], d: char) -> (s: Vec<char>)
    ensures
        s@ == join_with(views(parts@), d),
{
    let mut out: Vec<char> = Vec::new();
    let mut i: usize = 0;
    proof {
        assert(views(parts@).take(0).len() == 0);
    }
    while i < parts.len()
        invariant
            i <= parts.len(),
            out@ == join_with(views(parts@).take(i as int), d),
        decreases parts.len() - i,
    {
        let ghost done = views(parts@).take(i as int);
        let ghost next = views(parts@).take(i + 1);
        proof {
            assert(next.drop_last() == done);
            assert(next.last() == parts@[i as int]@);
        }
        if i > 0 {
            out.push(d);
        }
        let ghost head = out@;
        let part = &parts[i];
        let mut j: usize = 0;
        while j < part.len()
            invariant
                j <= part.len(),
                out@ == head + part@.take(j as int),
            decreases part.len() - j,
        {
            proof {
                assert(part@.take(j + 1) == part@.take(j as int).push(part@[j as int]));
            }
            out.push(part[j]);
            j += 1;
        }
        proof {
            assert(part@.take(j as int) == part@);
            if i == 0 {
                assert(next.len() == 1);
                assert(head + part@ == part@);
            }
        }
        i += 1;
    }
    proof {
        assert(views(parts@).take(i as int) == views(parts@));
    }
    out
}

/// The part of `s` in front of its first `d`.
pub fn prefix_before<'a>(s: &'a [char], d: char) -> (head: &'a [char])
    ensures
        head@ == before_first(s@, d),
{
    let mut i: usize = 0;
    while i < s.len() && s[i] != d
        invariant
            i <= s.len(),
            forall|j: int| 0 <= j < i ==> s@[j] != d,
        decreases s.len() - i,
    {
        i += 1;
    }
    proof {
        lemma_before_first(s@, d);
        let head = before_first(s@, d);
        if head.len() < i {
            assert(s@[head.len() as int] == d);
        }
        if head.len() > i {
            assert(head[i as int] == s@[i as int]);
            assert(head.contains(d));
        }
    }
    slice_subrange(s, 0, i)
}

} // verus!
