//! A stable sort by timestamp, the order in which stock layers and ledger
//! entries are processed.
use vstd::prelude::*;
use crate::time::{Timestamp, ts_before};

verus! {

/// Something that happened at a point in time.
pub trait Timed: Sized {
    /// The point in time.
    spec fn time_of(&self) -> Timestamp;

    /// The point in time.
    fn time(&self) -> (r: Timestamp)
        ensures
            r == self.time_of(),
    ;
}

/// `x` inserted into `sorted` after every element that does not come later than it.
pub open spec fn insert_by_time<T: Timed>(sorted: Seq<T>, x: T) -> Seq<T>
    decreases sorted.len(),
{
    if sorted.len() == 0 {
        seq![x]
    } else if ts_before(x.time_of(), sorted.last().time_of()) {
        insert_by_time(sorted.drop_last(), x).push(sorted.last())
    } else {
        sorted.push(x)
    }
}

/// `s` sorted by time, elements with equal times keeping their order: what a
/// stable sort by timestamp (such as `sort_by_key`) produces.
pub open spec fn sort_by_time<T: Timed>(s: Seq<T>) -> Seq<T>
    decreases s.len(),
{
    if s.len() == 0 {
        s
    } else {
        insert_by_time(sort_by_time(s.drop_last()), s.last())
    }
}

/// Whether `s` is ordered by time.
pub open spec fn is_time_ordered<T: Timed>(s: Seq<T>) -> bool {
    forall|i: int, j: int|
        0 <= i < j < s.len() ==> !ts_before(#[trigger] s[j].time_of(), #[trigger] s[i].time_of())
}

/// Inserting into an ordered sequence keeps it ordered and adds one element.
pub proof fn lemma_insert_by_time<T: Timed>(sorted: Seq<T>, x: T)
    requires
        is_time_ordered(sorted),
    ensures
        is_time_ordered(insert_by_time(sorted, x)),
        insert_by_time(sorted, x).to_multiset() == sorted.to_multiset().insert(x),
    decreases sorted.len(),
{
    broadcast use vstd::seq_lib::group_to_multiset_ensures;

    if sorted.len() == 0 {
        assert(seq![x] =~= Seq::<T>::empty().push(x));
    } else if ts_before(x.time_of(), sorted.last().time_of()) {
        let rest = sorted.drop_last();
        assert(is_time_ordered(rest));
        lemma_insert_by_time(rest, x);
        let ins = insert_by_time(rest, x);
        assert(sorted =~= rest.push(sorted.last()));
        assert forall|i: int| 0 <= i < ins.len() implies !ts_before(
            sorted.last().time_of(),
            #[trigger] ins[i].time_of(),
        ) by {
            assert(ins.to_multiset().count(ins[i]) > 0);
            assert(ins.to_multiset() == rest.to_multiset().insert(x));
            if ins[i] != x {
                assert(rest.to_multiset().count(ins[i]) > 0);
                assert(rest.contains(ins[i]));
                let k = choose|k: int| 0 <= k < rest.len() && rest[k] == ins[i];
                assert(sorted[k] == rest[k]);
            }
        }
    } else {
        assert forall|i: int, j: int|
            0 <= i < j < sorted.push(x).len() implies !ts_before(
            #[trigger] sorted.push(x)[j].time_of(),
            #[trigger] sorted.push(x)[i].time_of(),
        ) by {
            if j == sorted.len() {
                assert(!ts_before(sorted.last().time_of(), sorted[i].time_of()));
            }
        }
    }
}

/// The stable sort by time orders its input and keeps its elements.
pub proof fn lemma_sort_by_time<T: Timed>(s: Seq<T>)
    ensures
        is_time_ordered(sort_by_time(s)),
        sort_by_time(s).to_multiset() == s.to_multiset(),
        sort_by_time(s).len() == s.len(),
    decreases s.len(),
{
    broadcast use vstd::seq_lib::group_to_multiset_ensures;

    if s.len() > 0 {
        lemma_sort_by_time(s.drop_last());
        lemma_insert_by_time(sort_by_time(s.drop_last()), s.last());
        assert(s =~= s.drop_last().push(s.last()));
    }
    assert(sort_by_time(s).to_multiset().len() == sort_by_time(s).len());
    assert(s.to_multiset().len() == s.len());
}

/// Sorts `v` by time, keeping the order of elements with equal times.
pub fn stable_sort_by_time<T: Timed>(v: &mut Vec<T>)
    ensures
        final(v)@ == sort_by_time(old(v)@),
{
    let mut src: Vec<T> = Vec::new();
    std::mem::swap(&mut src, v);
    let ghost orig = src@;
    let mut out: Vec<T> = Vec::new();
    let ghost mut i: int = 0;
    proof {
        assert(orig.take(0) =~= Seq::<T>::empty());
        assert(orig.skip(0) =~= orig);
    }
    while src.len() > 0
        invariant
            0 <= i <= orig.len(),
            out@ == sort_by_time(orig.take(i)),
            src@ == orig.skip(i),
        decreases src.len(),
    {
        let x = src.remove(0);
        let ghost before = out@;
        proof {
            assert(x == orig[i]);
            assert(src@ =~= orig.skip(i + 1));
            assert(orig.take(i + 1).drop_last() =~= orig.take(i));
            assert(orig.take(i + 1).last() == orig[i]);
        }
        let xt = x.time();
        let mut j: usize = out.len();
        proof {
            assert(before.take(j as int) =~= before);
            assert(before.skip(j as int) =~= Seq::<T>::empty());
        }
        while j > 0 && xt.before(&out[j - 1].time())
            invariant
                j <= out.len(),
                out@ == before,
                xt == x.time_of(),
                insert_by_time(before, x) == insert_by_time(before.take(j as int), x) + before.skip(
                    j as int,
                ),
            decreases j,
        {
            proof {
                let t = before.take(j as int);
                assert(t.drop_last() =~= before.take(j - 1));
                assert(t.last() == before[j - 1]);
                assert(before.skip(j - 1) =~= seq![before[j - 1]] + before.skip(j as int));
                assert(insert_by_time(before.take(j - 1), x).push(before[j - 1]) + before.skip(
                    j as int,
                ) =~= insert_by_time(before.take(j - 1), x) + before.skip(j - 1));
            }
            j -= 1;
        }
        proof {
            if j == 0 {
                assert(before.take(0) =~= Seq::<T>::empty());
                assert(insert_by_time(before.take(0), x) == seq![x]);
                assert(seq![x] + before.skip(0) =~= before.insert(0, x));
            } else {
                assert(!ts_before(x.time_of(), before[j - 1].time_of()));
                let t = before.take(j as int);
                assert(t.last() == before[j - 1]);
                assert(insert_by_time(t, x) == t.push(x));
                assert(t.push(x) + before.skip(j as int) =~= before.insert(j as int, x));
            }
        }
        out.insert(j, x);
        proof {
            i = i + 1;
        }
    }
    proof {
        assert(orig.take(i) =~= orig);
    }
    *v = out;
}

} // verus!
