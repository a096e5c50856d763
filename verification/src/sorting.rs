//! Stable sorting by an integer rank.

use vstd::prelude::*;

verus! {

/// A value that is ordered by an integer rank.
pub trait Ranked {
    spec fn rank_spec(&self) -> i32;

    /// The rank that the value is ordered by.
    fn rank(&self) -> (r: i32)
        ensures
            r == self.rank_spec(),
    ;
}

/// Whether the ranks never fall along the sequence.
pub open spec fn sorted_by_rank<T: Ranked>(s: Seq<T>) -> bool {
    forall|i: int, j: int| 0 <= i <= j < s.len() ==> s[i].rank_spec() <= s[j].rank_spec()
}

/// The test for having rank `r`.
pub open spec fn has_rank<T: Ranked>(r: i32) -> spec_fn(T) -> bool {
    |x: T| x.rank_spec() == r
}

/// The values of rank `r`, in the order in which they stand in `s`.
pub open spec fn of_rank<T: Ranked>(s: Seq<T>, r: i32) -> Seq<T> {
    s.filter(has_rank::<T>(r))
}

/// Whether `sorted` holds the values of `from` in the order of their ranks,
/// values of one rank in the order in which they stand in `from`.
pub open spec fn stably_sorted<T: Ranked>(sorted: Seq<T>, from: Seq<T>) -> bool {
    &&& sorted_by_rank(sorted)
    &&& forall|r: i32| #[trigger] of_rank(sorted, r) == of_rank(from, r)
}

/// A sequence without a value of rank `r` has no values of rank `r`.
pub proof fn lemma_of_rank_none<T: Ranked>(s: Seq<T>, r: i32)
    requires
        forall|k: int| 0 <= k < s.len() ==> (#[trigger] s[k]).rank_spec() != r,
    ensures
        of_rank(s, r) == Seq::<T>::empty(),
    decreases s.len(),
{
    reveal(Seq::filter);
    if s.len() > 0 {
        lemma_of_rank_none(s.drop_last(), r);
    }
}

/// Putting a value behind the last value of no greater rank keeps a stably
/// sorted sequence stably sorted, now of the source with the value at its end.
pub proof fn lemma_insert_stable<T: Ranked>(sorted: Seq<T>, from: Seq<T>, x: T, p: int)
    requires
        stably_sorted(sorted, from),
        0 <= p <= sorted.len(),
        forall|k: int| p <= k < sorted.len() ==> (#[trigger] sorted[k]).rank_spec() > x.rank_spec(),
        p > 0 ==> sorted[p - 1].rank_spec() <= x.rank_spec(),
    ensures
        stably_sorted(sorted.insert(p, x), from.push(x)),
{
    let front = sorted.subrange(0, p);
    let back = sorted.subrange(p, sorted.len() as int);
    let grown = sorted.insert(p, x);
    assert(sorted =~= front + back);
    assert(grown == front.push(x) + back);
    assert forall|i: int, j: int| 0 <= i <= j < grown.len() implies grown[i].rank_spec()
        <= grown[j].rank_spec() by {
        if i < p {
            assert(grown[i] == sorted[i]);
            assert(sorted[i].rank_spec() <= sorted[p - 1].rank_spec());
        }
        if j > p {
            assert(grown[j] == sorted[j - 1]);
        }
    }
    assert forall|r: i32| #[trigger] of_rank(grown, r) == of_rank(from.push(x), r) by {
        let pred = has_rank::<T>(r);
        Seq::filter_distributes_over_add(front.push(x), back, pred);
        Seq::filter_distributes_over_add(front, back, pred);
        front.lemma_filter_push(x, pred);
        from.lemma_filter_push(x, pred);
        assert(of_rank(sorted, r) == of_rank(from, r));
        if x.rank_spec() == r {
            lemma_of_rank_none(back, r);
            assert(of_rank(grown, r) =~= of_rank(from.push(x), r));
        } else {
            assert(of_rank(grown, r) =~= of_rank(from.push(x), r));
        }
    }
}

/// Sorts the values by rank. Values of one rank keep their order.
pub fn stable_sort<T: Ranked + Copy>(items: &mut Vec<T>)
    ensures
        stably_sorted(final(items)@, old(items)@),
        final(items)@.len() == old(items)@.len(),
{
    let mut out: Vec<T> = Vec::new();
    let len: usize = items.len();
    let mut i: usize = 0;
    proof {
        assert(items@.take(0) =~= Seq::<T>::empty());
        assert forall|r: i32| #[trigger] of_rank(out@, r) == of_rank(items@.take(0), r) by {}
    }
    while i < len
        invariant
            items@ == old(items)@,
            len == items@.len(),
            i <= len,
            out@.len() == i,
            stably_sorted(out@, items@.take(i as int)),
        decreases len - i,
    {
        let x: T = items[i];
        let key: i32 = x.rank();
        let mut p: usize = out.len();
        while p > 0 && out[p - 1].rank() > key
            invariant
                p <= out@.len(),
                key == x.rank_spec(),
                forall|k: int| p <= k < out@.len() ==> (#[trigger] out@[k]).rank_spec() > key,
            decreases p,
        {
            p = p - 1;
        }
        proof {
            lemma_insert_stable(out@, items@.take(i as int), x, p as int);
            assert(items@.take(i as int).push(x) =~= items@.take(i + 1));
        }
        out.insert(p, x);
        i = i + 1;
    }
    proof {
        assert(items@.take(len as int) =~= items@);
    }
    *items = out;
}

} // verus!
