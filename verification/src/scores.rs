use vstd::prelude::*;

verus! {

use crate::types::MinigameResult;

/// `s` with `x` inserted after every score line with at most `x`'s points.
pub open spec fn insert_by_point(s: Seq<MinigameResult>, x: MinigameResult) -> Seq<MinigameResult>
    decreases s.len(),
{
    if s.len() == 0 {
        seq![x]
    } else if x.point < s.last().point {
        insert_by_point(s.drop_last(), x).push(s.last())
    } else {
        s.push(x)
    }
}

/// Score lines in ascending order of points, lines with equal points in their original order
/// (the order that a stable sort by points gives).
pub open spec fn sort_by_point(s: Seq<MinigameResult>) -> Seq<MinigameResult>
    decreases s.len(),
{
    if s.len() == 0 {
        s
    } else {
        insert_by_point(sort_by_point(s.drop_last()), s.last())
    }
}

/// Score lines in ascending order of points.
pub open spec fn sorted_by_point(s: Seq<MinigameResult>) -> bool {
    forall|i: int, j: int| 0 <= i <= j < s.len() ==> s[i].point <= s[j].point
}

/// The score lines with `p` points, in their order.
pub open spec fn with_point(s: Seq<MinigameResult>, p: u32) -> Seq<MinigameResult> {
    s.filter(|r: MinigameResult| r.point == p)
}

proof fn lemma_with_point_push(s: Seq<MinigameResult>, x: MinigameResult, p: u32)
    ensures
        with_point(s.push(x), p) == (if x.point == p {
            with_point(s, p).push(x)
        } else {
            with_point(s, p)
        }),
{
    s.lemma_filter_push(x, |r: MinigameResult| r.point == p);
}

proof fn lemma_insert_len_bound(s: Seq<MinigameResult>, x: MinigameResult, b: int)
    requires
        forall|i: int| 0 <= i < s.len() ==> s[i].point <= b,
        x.point <= b,
    ensures
        insert_by_point(s, x).len() == s.len() + 1,
        forall|i: int|
            0 <= i < insert_by_point(s, x).len() ==> #[trigger] insert_by_point(s, x)[i].point <= b,
    decreases s.len(),
{
    if s.len() > 0 && x.point < s.last().point {
        lemma_insert_len_bound(s.drop_last(), x, b);
    }
}

proof fn lemma_insert_sorted(s: Seq<MinigameResult>, x: MinigameResult)
    requires
        sorted_by_point(s),
    ensures
        sorted_by_point(insert_by_point(s, x)),
        insert_by_point(s, x).len() == s.len() + 1,
    decreases s.len(),
{
    if s.len() > 0 && x.point < s.last().point {
        let d = s.drop_last();
        lemma_insert_sorted(d, x);
        lemma_insert_len_bound(d, x, s.last().point as int);
    }
}

proof fn lemma_insert_with_point(s: Seq<MinigameResult>, x: MinigameResult, p: u32)
    ensures
        with_point(insert_by_point(s, x), p) == (if x.point == p {
            with_point(s, p).push(x)
        } else {
            with_point(s, p)
        }),
    decreases s.len(),
{
    if s.len() == 0 {
        assert(seq![x] =~= s.push(x));
        lemma_with_point_push(s, x, p);
    } else if x.point < s.last().point {
        let d = s.drop_last();
        assert(s =~= d.push(s.last()));
        lemma_insert_with_point(d, x, p);
        lemma_with_point_push(insert_by_point(d, x), s.last(), p);
        lemma_with_point_push(d, s.last(), p);
        if x.point == p {
            lemma_with_point_push(d, x, p);
        }
    } else {
        lemma_with_point_push(s, x, p);
    }
}

/// The stable sort by points sorts, and keeps the score lines of each number of points in
/// their order; so it is a permutation.
pub proof fn lemma_sort_by_point(s: Seq<MinigameResult>)
    ensures
        sorted_by_point(sort_by_point(s)),
        sort_by_point(s).len() == s.len(),
        forall|p: u32| #[trigger] with_point(sort_by_point(s), p) == with_point(s, p),
    decreases s.len(),
{
    if s.len() > 0 {
        let d = s.drop_last();
        lemma_sort_by_point(d);
        lemma_insert_sorted(sort_by_point(d), s.last());
        assert forall|p: u32| #[trigger] with_point(sort_by_point(s), p) == with_point(s, p) by {
            lemma_insert_with_point(sort_by_point(d), s.last(), p);
            assert(s =~= d.push(s.last()));
            lemma_with_point_push(d, s.last(), p);
        }
    }
}

proof fn lemma_insert_at(s: Seq<MinigameResult>, x: MinigameResult, k: int)
    requires
        0 <= k <= s.len(),
        forall|i: int| k <= i < s.len() ==> x.point < #[trigger] s[i].point,
        k == 0 || s[k - 1].point <= x.point,
    ensures
        insert_by_point(s, x) == s.insert(k, x),
    decreases s.len(),
{
    if s.len() == 0 {
        assert(s.insert(k, x) =~= seq![x]);
    } else if x.point < s.last().point {
        let d = s.drop_last();
        lemma_insert_at(d, x, k);
        assert(d.insert(k, x).push(s.last()) =~= s.insert(k, x));
    } else {
        assert(s.push(x) =~= s.insert(k, x));
    }
}

/// The score lines sorted by points, stably.
pub fn sort_results(v: &Vec<MinigameResult>) -> (r: Vec<MinigameResult>)
    ensures
        r@ == sort_by_point(v@),
        sorted_by_point(r@),
        forall|p: u32| #[trigger] with_point(r@, p) == with_point(v@, p),
{
    let mut out: Vec<MinigameResult> = Vec::new();
    let mut i: usize = 0;
    while i < v.len()
        invariant
            i <= v.len(),
            out@ == sort_by_point(v@.subrange(0, i as int)),
        decreases v.len() - i,
    {
        proof {
            lemma_sort_by_point(v@.subrange(0, i as int));
        }
        let x = v[i];
        let mut pos = out.len();
        while pos > 0 && x.point < out[pos - 1].point
            invariant
                pos <= out.len(),
                forall|j: int| pos <= j < out.len() ==> x.point < #[trigger] out@[j].point,
            decreases pos,
        {
            pos = pos - 1;
        }
        proof {
            lemma_insert_at(out@, x, pos as int);
            assert(v@.subrange(0, i as int + 1).drop_last() =~= v@.subrange(0, i as int));
        }
        out.insert(pos, x);
        i = i + 1;
    }
    proof {
        assert(v@.subrange(0, v.len() as int) =~= v@);
        lemma_sort_by_point(v@);
    }
    out
}

/// Every score line has at most `b` points.
pub open spec fn points_at_most(s: Seq<MinigameResult>, b: int) -> bool {
    forall|i: int| 0 <= i < s.len() ==> #[trigger] s[i].point <= b
}

} // verus!