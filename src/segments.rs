//! Slash-separated paths: trimming, splitting into segments and joining them back.

use vstd::prelude::*;
use crate::text::seq_contains;

verus! {

/// `s` without its trailing slashes.
pub open spec fn trim_end_slashes(s: Seq<char>) -> Seq<char>
    decreases s.len(),
{
    if s.len() > 0 && s.last() == '/' {
        trim_end_slashes(s.drop_last())
    } else {
        s
    }
}

/// The segments of `s` between slashes, in order; always at least one (maybe empty) segment.
pub open spec fn split_slash(s: Seq<char>) -> Seq<Seq<char>>
    decreases s.len(),
{
    if s.len() == 0 {
        seq![Seq::empty()]
    } else {
        let p = split_slash(s.drop_last());
        if s.last() == '/' {
            p.push(Seq::empty())
        } else {
            p.update(p.len() - 1, p.last().push(s.last()))
        }
    }
}

/// The segments `parts` with one slash between neighbours.
pub open spec fn join_slash_seq(parts: Seq<Seq<char>>) -> Seq<char>
    decreases parts.len(),
{
    if parts.len() == 0 {
        Seq::empty()
    } else if parts.len() == 1 {
        parts[0]
    } else {
        join_slash_seq(parts.drop_last()) + seq!['/'] + parts.last()
    }
}

/// The views of a sequence of strings.
pub open spec fn views(v: Seq<String>) -> Seq<Seq<char>> {
    v.map_values(|x: String| x@)
}

/// Index of the first segment at or after `from` equal to `t`, or -1.
pub open spec fn find_from(parts: Seq<Seq<char>>, t: Seq<char>, from: int) -> int
    decreases parts.len() - from,
{
    if from < 0 || from >= parts.len() {
        -1
    } else if parts[from] == t {
        from
    } else {
        find_from(parts, t, from + 1)
    }
}

/// Splitting always yields at least one segment.
pub proof fn lemma_split_nonempty(s: Seq<char>)
    ensures
        split_slash(s).len() >= 1,
    decreases s.len(),
{
    if s.len() > 0 {
        lemma_split_nonempty(s.drop_last());
    }
}

/// Trimming leaves a prefix of the text that does not end in a slash.
pub proof fn lemma_trim_no_trailing(s: Seq<char>)
    ensures
        trim_end_slashes(s).len() == 0 || trim_end_slashes(s).last() != '/',
        trim_end_slashes(s).len() <= s.len(),
        trim_end_slashes(s) == s.subrange(0, trim_end_slashes(s).len() as int),
    decreases s.len(),
{
    if s.len() > 0 && s.last() == '/' {
        lemma_trim_no_trailing(s.drop_last());
    } else {
        assert(s == s.subrange(0, s.len() as int));
    }
}

/// Joining the segments of `s` gives `s` back.
pub proof fn lemma_join_split(s: Seq<char>)
    ensures
        join_slash_seq(split_slash(s)) == s,
    decreases s.len(),
{
    if s.len() == 0 {
        assert(join_slash_seq(split_slash(s)) =~= s);
    } else {
        let d = s.drop_last();
        lemma_join_split(d);
        lemma_split_nonempty(d);
        let p = split_slash(d);
        if s.last() == '/' {
            let q = p.push(Seq::empty());
            assert(q.drop_last() =~= p);
            assert(join_slash_seq(q) =~= s);
        } else {
            let q = p.update(p.len() - 1, p.last().push(s.last()));
            if p.len() == 1 {
                assert(join_slash_seq(p) == p[0]);
                assert(join_slash_seq(q) == q[0]);
                assert(join_slash_seq(q) =~= s);
            } else {
                assert(q.drop_last() =~= p.drop_last());
                assert(join_slash_seq(p) == join_slash_seq(p.drop_last()) + seq!['/'] + p.last());
                assert(join_slash_seq(q) == join_slash_seq(p.drop_last()) + seq!['/'] + q.last());
                let a = join_slash_seq(p.drop_last()) + seq!['/'];
                assert(a + p.last().push(s.last()) =~= (a + p.last()).push(s.last()));
                assert(s =~= d.push(s.last()));
                assert(join_slash_seq(q) =~= s);
            }
        }
    }
}

/// Joining two non-empty runs of segments puts one slash between their joins.
pub proof fn lemma_join_append(a: Seq<Seq<char>>, b: Seq<Seq<char>>)
    requires
        a.len() >= 1,
        b.len() >= 1,
    ensures
        join_slash_seq(a + b) == join_slash_seq(a) + seq!['/'] + join_slash_seq(b),
    decreases b.len(),
{
    if b.len() == 1 {
        assert((a + b).drop_last() =~= a);
    } else {
        lemma_join_append(a, b.drop_last());
        assert((a + b).drop_last() =~= a + b.drop_last());
        assert(join_slash_seq(a + b) =~= join_slash_seq(a) + seq!['/'] + join_slash_seq(b));
    }
}

/// The last segment of a non-empty text that does not end in a slash is non-empty.
pub proof fn lemma_split_last_nonempty(s: Seq<char>)
    requires
        s.len() > 0,
        s.last() != '/',
    ensures
        split_slash(s).last().len() > 0,
{
    lemma_split_nonempty(s.drop_last());
}

/// Splitting `a/b` gives the segments of `a` followed by those of `b`.
pub proof fn lemma_split_concat(a: Seq<char>, b: Seq<char>)
    ensures
        split_slash(a + seq!['/'] + b) == split_slash(a) + split_slash(b),
    decreases b.len(),
{
    let u = a + seq!['/'] + b;
    lemma_split_nonempty(a);
    if b.len() == 0 {
        assert(u.drop_last() =~= a);
        assert(split_slash(b) =~= seq![Seq::<char>::empty()]);
        assert(split_slash(u) =~= split_slash(a) + split_slash(b));
    } else {
        let d = b.drop_last();
        let c = b.last();
        lemma_split_concat(a, d);
        lemma_split_nonempty(d);
        assert(u.drop_last() =~= a + seq!['/'] + d);
        let p = split_slash(a) + split_slash(d);
        let q = split_slash(d);
        if c == '/' {
            assert(split_slash(u) == p.push(Seq::empty()));
            assert(split_slash(b) == q.push(Seq::empty()));
            assert(split_slash(u) =~= split_slash(a) + split_slash(b));
        } else {
            assert(split_slash(u) == p.update(p.len() - 1, p.last().push(c)));
            assert(split_slash(b) == q.update(q.len() - 1, q.last().push(c)));
            assert(p.last() == q.last());
            assert(split_slash(u) =~= split_slash(a) + split_slash(b));
        }
    }
}

/// A text without slashes is a single segment.
pub proof fn lemma_split_no_slash(s: Seq<char>)
    requires
        forall|i: int| 0 <= i < s.len() ==> s[i] != '/',
    ensures
        split_slash(s) == seq![s],
    decreases s.len(),
{
    if s.len() == 0 {
        assert(s =~= Seq::<char>::empty());
        assert(split_slash(s) =~= seq![s]);
    } else {
        let d = s.drop_last();
        lemma_split_no_slash(d);
        assert(d.push(s.last()) =~= s);
        assert(s.last() != '/');
        let p = split_slash(d);
        assert(p == seq![d]);
        assert(split_slash(s) == p.update(p.len() - 1, p.last().push(s.last())));
        assert(split_slash(s) =~= seq![s]);
    }
}

/// Every segment of `t` occurs in `t`.
pub proof fn lemma_segment_contained(t: Seq<char>, k: int)
    requires
        0 <= k < split_slash(t).len(),
    ensures
        seq_contains(t, split_slash(t)[k]),
{
    let parts = split_slash(t);
    let x = parts[k];
    let n = parts.len() as int;
    lemma_join_split(t);
    let tail = parts.subrange(k, n);
    let post = parts.subrange(k + 1, n);
    let one = seq![x];
    assert(join_slash_seq(one) == x);
    let jt = join_slash_seq(tail);
    if post.len() > 0 {
        assert(tail =~= one + post);
        lemma_join_append(one, post);
    } else {
        assert(tail =~= one);
    }
    assert(jt.subrange(0, x.len() as int) =~= x);
    if k == 0 {
        assert(parts =~= tail);
        assert(t.subrange(0, x.len() as int) == x);
        assert(0 + x.len() <= t.len());
        assert(t.subrange(0int, 0int + x.len()) == x);
    } else {
        let pre = parts.take(k);
        assert(parts =~= pre + tail);
        lemma_join_append(pre, tail);
        let off: int = join_slash_seq(pre).len() as int + 1;
        assert(t =~= (join_slash_seq(pre) + seq!['/']) + jt);
        assert(t.subrange(off, off + x.len() as int) =~= jt.subrange(0, x.len() as int));
        assert(t.len() == off + jt.len());
        assert(t.subrange(off, off + x.len() as int) == x);
        assert(off + x.len() <= t.len());
    }
}

/// `s` without its trailing slashes.
pub fn trim_end_slashes_str(s: &str) -> (r: &str)
    ensures
        r@ == trim_end_slashes(s@),
{
    let n = s.unicode_len();
    let mut e: usize = n;
    assert(s@.subrange(0, n as int) =~= s@);
    while e > 0 && s.get_char(e - 1) == '/'
        invariant
            n == s@.len(),
            e <= n,
            trim_end_slashes(s@) == trim_end_slashes(s@.subrange(0, e as int)),
        decreases e,
    {
        assert(s@.subrange(0, e as int).drop_last() =~= s@.subrange(0, e - 1));
        e = e - 1;
    }
    s.substring_char(0, e)
}

/// The segments of `s` between slashes.
pub fn split_on_slash(s: &str) -> (r: Vec<String>)
    ensures
        views(r@) == split_slash(s@),
{
    let n = s.unicode_len();
    let mut segs: Vec<String> = Vec::new();
    let mut start: usize = 0;
    let mut i: usize = 0;
    assert(s@.subrange(0, 0) =~= Seq::<char>::empty());
    assert(views(segs@) =~= Seq::<Seq<char>>::empty());
    assert(split_slash(Seq::<char>::empty()) =~= Seq::<Seq<char>>::empty().push(Seq::<char>::empty()));
    while i < n
        invariant
            n == s@.len(),
            start <= i <= n,
            split_slash(s@.subrange(0, i as int)) == views(segs@).push(s@.subrange(start as int, i as int)),
        decreases n - i,
    {
        let c = s.get_char(i);
        let ghost pre = s@.subrange(0, i + 1);
        assert(pre.drop_last() =~= s@.subrange(0, i as int));
        let ghost before = segs@;
        let ghost start0 = start;
        assert(pre.last() == c);
        if c == '/' {
            let seg = String::from_str(s.substring_char(start, i));
            let ghost piece = seg@;
            segs.push(seg);
            assert(views(segs@) =~= views(before).push(piece));
            start = i + 1;
        }
        proof {
            let p = split_slash(pre.drop_last());
            assert(p == views(before).push(s@.subrange(start0 as int, i as int)));
            if c == '/' {
                assert(split_slash(pre) == p.push(Seq::empty()));
                assert(s@.subrange(start as int, i + 1) =~= Seq::<char>::empty());
                assert(split_slash(pre) =~= views(segs@).push(s@.subrange(start as int, i + 1)));
            } else {
                let q = p.update(p.len() - 1, p.last().push(c));
                assert(split_slash(pre) == q);
                assert(p.last() == s@.subrange(start0 as int, i as int));
                assert(s@.subrange(start0 as int, i as int).push(c) =~= s@.subrange(start as int, i + 1));
                assert(q =~= views(before).push(s@.subrange(start0 as int, i + 1)));
                assert(segs@ == before);
                assert(split_slash(pre) =~= views(segs@).push(s@.subrange(start as int, i + 1)));
            }
        }
        i = i + 1;
    }
    let last = String::from_str(s.substring_char(start, n));
    segs.push(last);
    assert(s@.subrange(0, n as int) =~= s@);
    assert(views(segs@) =~= split_slash(s@));
    segs
}

} // verus!
