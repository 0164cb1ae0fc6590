//! Stable ordering of list entries by rank.

use vstd::prelude::*;

verus! {

/// The rank of the entry at `index`: lower groups first, then greater weights,
/// and otherwise the order that was there.
#[derive(Debug, Clone, Copy, PartialEq, Eq, Structural)]
pub struct Rank {
    pub group: u64,
    pub weight: u64,
    pub index: usize,
}

/// Whether rank `a` goes in front of `b`.
pub open spec fn above(a: Rank, b: Rank) -> bool {
    a.group < b.group || (a.group == b.group && a.weight > b.weight)
}

/// A sorted list with one more entry, behind all that it is not above.
pub open spec fn insert(list: Seq<Rank>, x: Rank) -> Seq<Rank>
    decreases list.len(),
{
    if list.len() == 0 || !above(x, list.last()) {
        list.push(x)
    } else {
        insert(list.drop_last(), x).push(list.last())
    }
}

/// The list in rank order, equal ranks as they were.
pub open spec fn sort(list: Seq<Rank>) -> Seq<Rank>
    decreases list.len(),
{
    if list.len() == 0 {
        list
    } else {
        insert(sort(list.drop_last()), list.last())
    }
}

pub open spec fn is_sorted(list: Seq<Rank>) -> bool {
    forall|i: int, j: int| 0 <= i < j < list.len() ==> !above(#[trigger] list[j], #[trigger] list[i])
}

proof fn lemma_insert_at(list: Seq<Rank>, x: Rank, pos: int)
    requires
        0 <= pos <= list.len(),
        forall|k: int| pos <= k < list.len() ==> above(x, #[trigger] list[k]),
        pos > 0 ==> !above(x, list[pos - 1]),
    ensures
        insert(list, x) == list.insert(pos, x),
    decreases list.len(),
{
    if pos == list.len() {
        assert(list.insert(pos, x) =~= list.push(x));
    } else {
        let front = list.drop_last();
        assert(above(x, list.last()));
        lemma_insert_at(front, x, pos);
        assert(list.insert(pos, x) =~= front.insert(pos, x).push(list.last()));
    }
}

/// Puts ranks in order.
pub fn sorted(list: &Vec<Rank>) -> (r: Vec<Rank>)
    ensures
        r@ == sort(list@),
{
    let mut out: Vec<Rank> = Vec::new();
    let mut i: usize = 0;
    while i < list.len()
        invariant
            i <= list@.len(),
            out@ == sort(list@.take(i as int)),
        decreases list@.len() - i,
    {
        let x = list[i];
        let mut pos: usize = out.len();
        while pos > 0 && (x.group < out[pos - 1].group || (x.group == out[pos - 1].group && x.weight
            > out[pos - 1].weight))
            invariant
                pos <= out@.len(),
                forall|k: int| pos <= k < out@.len() ==> above(x, #[trigger] out@[k]),
            decreases pos,
        {
            pos -= 1;
        }
        proof {
            lemma_insert_at(out@, x, pos as int);
            assert(list@.take(i + 1).drop_last() =~= list@.take(i as int));
        }
        out.insert(pos, x);
        i += 1;
    }
    assert(list@.take(i as int) =~= list@);
    out
}

proof fn lemma_insert_keeps(list: Seq<Rank>, x: Rank)
    requires
        is_sorted(list),
    ensures
        is_sorted(insert(list, x)),
        insert(list, x).to_multiset() =~= list.to_multiset().insert(x),
        insert(list, x).len() == list.len() + 1,
        forall|k: int|
            0 <= k < insert(list, x).len() ==> #[trigger] insert(list, x)[k] == x
                || list.contains(insert(list, x)[k]),
    decreases list.len(),
{
    broadcast use vstd::seq_lib::group_to_multiset_ensures;

    let r = insert(list, x);
    if list.len() == 0 || !above(x, list.last()) {
        assert forall|i: int, j: int| 0 <= i < j < r.len() implies !above(
            #[trigger] r[j],
            #[trigger] r[i],
        ) by {
            if j == list.len() {
                assert(!above(list.last(), list[i]) || i == list.len() - 1);
            }
        }
        assert forall|k: int| 0 <= k < r.len() implies #[trigger] r[k] == x || list.contains(
            r[k],
        ) by {
            if k < list.len() {
                assert(list[k] == r[k]);
            }
        }
    } else {
        let front = list.drop_last();
        lemma_insert_keeps(front, x);
        let f = insert(front, x);
        assert(list =~= front.push(list.last()));
        assert forall|k: int| 0 <= k < r.len() implies #[trigger] r[k] == x || list.contains(
            r[k],
        ) by {
            if k < f.len() {
                assert(r[k] == f[k]);
                if f[k] != x {
                    let m = choose|m: int| 0 <= m < front.len() && front[m] == f[k];
                    assert(list[m] == f[k]);
                }
            } else {
                assert(list[list.len() - 1] == r[k]);
            }
        }
        assert forall|i: int, j: int| 0 <= i < j < r.len() implies !above(
            #[trigger] r[j],
            #[trigger] r[i],
        ) by {
            if j < f.len() {
                assert(!above(f[j], f[i]));
            } else {
                assert(r[j] == list.last());
                assert(r[i] == f[i]);
                if f[i] != x {
                    assert(front.contains(f[i]));
                    let m = choose|m: int| 0 <= m < front.len() && front[m] == f[i];
                    assert(!above(list[list.len() - 1], list[m]));
                }
            }
        }
    }
}

/// Sorting loses and adds nothing, and leaves no entry in front of one that
/// ranks above it.
pub proof fn law_sort_orders_the_same_entries(list: Seq<Rank>)
    ensures
        is_sorted(sort(list)),
        sort(list).to_multiset() =~= list.to_multiset(),
        sort(list).len() == list.len(),
    decreases list.len(),
{
    broadcast use vstd::seq_lib::group_to_multiset_ensures;

    if list.len() > 0 {
        law_sort_orders_the_same_entries(list.drop_last());
        lemma_insert_keeps(sort(list.drop_last()), list.last());
        assert(list =~= list.drop_last().push(list.last()));
    }
}

/// A sorted list is left as it is.
pub proof fn law_sort_keeps_sorted_lists(list: Seq<Rank>)
    requires
        is_sorted(list),
    ensures
        sort(list) == list,
    decreases list.len(),
{
    if list.len() > 0 {
        law_sort_keeps_sorted_lists(list.drop_last());
        let front = list.drop_last();
        if front.len() > 0 {
            assert(!above(list[list.len() - 1], list[list.len() - 2]));
            assert(front.last() == list[list.len() - 2]);
        }
        assert(front.push(list.last()) =~= list);
    }
}

} // verus!
