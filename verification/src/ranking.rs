//! Ranking by fitness: best first, and among equals the one that stood
//! first.

use vstd::prelude::*;
use crate::collision::Measure;

verus! {

/// Whether item `i` is ranked before item `j`: the higher key goes first, and
/// of two equal keys the one with the lower index.
pub open spec fn precedes(keys: Seq<Measure>, i: int, j: int) -> bool {
    keys[i] > keys[j] || (keys[i] == keys[j] && i < j)
}

/// Whether `order` lists the first `count` indices of `keys`, each once, in
/// the order of their rank.
pub open spec fn ranks(keys: Seq<Measure>, order: Seq<usize>, count: int) -> bool {
    &&& order.len() == count <= usize::MAX
    &&& forall|a: int| 0 <= a < order.len() ==> #[trigger] order[a] < count
    &&& forall|i: usize| i < count ==> #[trigger] order.contains(i)
    &&& forall|a: int, b: int|
        0 <= a < b < order.len() ==> precedes(keys, #[trigger] order[a] as int, #[trigger] order[b] as int)
}

/// Whether `order` is a ranking of all of `keys`.
pub open spec fn is_ranking(keys: Seq<Measure>, order: Seq<usize>) -> bool {
    ranks(keys, order, keys.len() as int)
}

/// The ranking of `keys`: the indices of `keys` from the highest key to the
/// lowest, equal keys in the order of their indices.
pub open spec fn ranking(keys: Seq<Measure>) -> Seq<usize> {
    choose|order: Seq<usize>| is_ranking(keys, order)
}

proof fn rankings_agree_up_to(keys: Seq<Measure>, first: Seq<usize>, second: Seq<usize>, upto: nat)
    requires
        is_ranking(keys, first),
        is_ranking(keys, second),
        upto <= keys.len(),
    ensures
        forall|a: int| 0 <= a < upto ==> first[a] == second[a],
    decreases upto,
{
    if upto > 0 {
        let at = (upto - 1) as int;
        rankings_agree_up_to(keys, first, second, at as nat);
        let i1 = first[at];
        let i2 = second[at];
        assert(first.contains(i2));
        assert(second.contains(i1));
        let p = choose|p: int| 0 <= p < first.len() && first[p] == i2;
        let q = choose|q: int| 0 <= q < second.len() && second[q] == i1;
        if p < at {
            assert(second[p] == first[p]);
            assert(precedes(keys, second[p] as int, second[at] as int));
        }
        if q < at {
            assert(first[q] == second[q]);
            assert(precedes(keys, first[q] as int, first[at] as int));
        }
        if p > at && q > at {
            assert(precedes(keys, first[at] as int, first[p] as int));
            assert(precedes(keys, second[at] as int, second[q] as int));
        }
    }
}

/// There is one ranking of `keys` and no other.
pub proof fn ranking_is_unique(keys: Seq<Measure>, first: Seq<usize>, second: Seq<usize>)
    requires
        is_ranking(keys, first),
        is_ranking(keys, second),
    ensures
        first == second,
{
    rankings_agree_up_to(keys, first, second, keys.len());
    assert(first =~= second);
}

/// No key is higher than that of the item ranked first.
pub proof fn first_ranked_is_best(keys: Seq<Measure>, order: Seq<usize>)
    requires
        is_ranking(keys, order),
        keys.len() > 0,
    ensures
        forall|i: int| 0 <= i < keys.len() ==> keys[order[0] as int] >= #[trigger] keys[i],
{
    assert forall|i: int| 0 <= i < keys.len() implies keys[order[0] as int] >= #[trigger] keys[i] by {
        assert(order.contains(i as usize));
        let a = choose|a: int| 0 <= a < order.len() && order[a] == i;
        if a > 0 {
            assert(precedes(keys, order[0] as int, order[a] as int));
        }
    }
}

/// Ranks the items of `keys`.
pub fn rank(keys: &[Measure]) -> (order: Vec<usize>)
    ensures
        is_ranking(keys@, order@),
        order@ == ranking(keys@),
{
    let n: usize = keys.len();
    let mut order: Vec<usize> = Vec::new();
    let mut k: usize = 0;
    while k < n
        invariant
            k <= n,
            n == keys@.len(),
            ranks(keys@, order@, k as int),
        decreases n - k,
    {
        let key: Measure = keys[k];
        let mut pos: usize = 0;
        while pos < k && keys[order[pos]] >= key
            invariant
                pos <= k,
                k < n,
                n == keys@.len(),
                key == keys@[k as int],
                ranks(keys@, order@, k as int),
                forall|a: int| 0 <= a < pos ==> keys@[#[trigger] order@[a] as int] >= key,
            decreases k - pos,
        {
            pos += 1;
        }
        let ghost before = order@;
        order.insert(pos, k);
        proof {
            let after = order@;
            assert(after.len() == k + 1);
            assert forall|a: int| 0 <= a < after.len() implies #[trigger] after[a] < k + 1 by {
                if a < pos {
                    assert(after[a] == before[a]);
                } else if a > pos {
                    assert(after[a] == before[a - 1]);
                }
            }
            assert forall|i: usize| i < k + 1 implies #[trigger] after.contains(i) by {
                if i == k {
                    assert(after[pos as int] == i);
                } else {
                    assert(before.contains(i));
                    let a = choose|a: int| 0 <= a < before.len() && before[a] == i;
                    if a < pos {
                        assert(after[a] == i);
                    } else {
                        assert(after[a + 1] == i);
                    }
                }
            }
            assert forall|a: int, b: int| 0 <= a < b < after.len() implies precedes(
                keys@,
                #[trigger] after[a] as int,
                #[trigger] after[b] as int,
            ) by {
                if b < pos {
                    assert(after[a] == before[a] && after[b] == before[b]);
                } else if b == pos {
                    assert(after[a] == before[a]);
                    assert(keys@[before[a] as int] >= key);
                } else if a < pos {
                    assert(after[a] == before[a] && after[b] == before[b - 1]);
                } else if a == pos {
                    assert(after[b] == before[b - 1]);
                    assert(before[pos as int] < k);
                    if b - 1 > pos {
                        assert(precedes(keys@, before[pos as int] as int, before[b - 1] as int));
                    }
                } else {
                    assert(after[a] == before[a - 1] && after[b] == before[b - 1]);
                }
            }
        }
        k += 1;
    }
    proof {
        let other = ranking(keys@);
        assert(is_ranking(keys@, order@));
        ranking_is_unique(keys@, order@, other);
    }
    order
}

} // verus!
