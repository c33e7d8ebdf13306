//! The order in which scored items are listed: highest first, and among equal
//! scores the one that came first.

use vstd::prelude::*;

verus! {

/// Whether the item at `a` is listed before the item at `b`: its key is
/// higher, or the keys are equal and it came first.
pub open spec fn precedes(keys: Seq<int>, a: int, b: int) -> bool {
    keys[a] > keys[b] || (keys[a] == keys[b] && a < b)
}

/// Whether `order` lists the positions below `n`, each once, so that every
/// position is listed before those it precedes.
pub open spec fn is_descending_order(order: Seq<usize>, keys: Seq<int>, n: int) -> bool {
    &&& order.len() == n
    &&& forall|i: int| 0 <= i < order.len() ==> 0 <= #[trigger] order[i] < n
    &&& forall|i: int, j: int|
        0 <= i < j < order.len() ==> precedes(
            keys,
            #[trigger] order[i] as int,
            #[trigger] order[j] as int,
        )
}

/// The keys as integers.
pub open spec fn int_keys(keys: Seq<i64>) -> Seq<int> {
    Seq::new(keys.len(), |i: int| keys[i] as int)
}

/// The positions of `keys`, from the highest key to the lowest; positions with
/// equal keys stay in their order.
pub fn descending_order(keys: &Vec<i64>) -> (order: Vec<usize>)
    ensures
        is_descending_order(order@, int_keys(keys@), keys@.len() as int),
{
    let mut order: Vec<usize> = Vec::new();
    let mut i: usize = 0;
    while i < keys.len()
        invariant
            i <= keys.len(),
            is_descending_order(order@, int_keys(keys@), i as int),
        decreases keys.len() - i,
    {
        let key = keys[i];
        let mut p: usize = 0;
        while p < order.len() && keys[order[p]] >= key
            invariant
                p <= order.len(),
                i < keys.len(),
                key == keys[i as int],
                is_descending_order(order@, int_keys(keys@), i as int),
                forall|a: int| 0 <= a < p ==> keys[#[trigger] order[a] as int] >= key,
            decreases order.len() - p,
        {
            p += 1;
        }
        let ghost before = order@;
        order.insert(p, i);
        proof {
            assert forall|a: int, b: int| 0 <= a < b < order@.len() implies precedes(
                int_keys(keys@),
                #[trigger] order@[a] as int,
                #[trigger] order@[b] as int,
            ) by {
                if b < p {
                    assert(order@[a] == before[a] && order@[b] == before[b]);
                } else if b == p {
                    assert(order@[a] == before[a]);
                } else if a < p {
                    assert(order@[a] == before[a] && order@[b] == before[b - 1]);
                } else if a == p {
                    assert(order@[b] == before[b - 1]);
                    assert(precedes(
                        int_keys(keys@),
                        before[p as int] as int,
                        before[b - 1] as int,
                    ) || b - 1 == p);
                } else {
                    assert(order@[a] == before[a - 1] && order@[b] == before[b - 1]);
                }
            }
        }
        i += 1;
    }
    order
}

/// Two listings of the same keys in descending order are the same listing.
pub proof fn lemma_descending_order_unique(first: Seq<usize>, second: Seq<usize>, keys: Seq<int>)
    requires
        is_descending_order(first, keys, keys.len() as int),
        is_descending_order(second, keys, keys.len() as int),
    ensures
        first == second,
{
    lemma_order_prefix(first, second, keys, keys.len() as int);
    assert(first =~= second);
}

/// Two listings of the same keys agree on their first `n` entries.
proof fn lemma_order_prefix(first: Seq<usize>, second: Seq<usize>, keys: Seq<int>, n: int)
    requires
        is_descending_order(first, keys, keys.len() as int),
        is_descending_order(second, keys, keys.len() as int),
        0 <= n <= keys.len(),
    ensures
        forall|i: int| 0 <= i < n ==> first[i] == second[i],
    decreases n,
{
    if n > 0 {
        lemma_order_prefix(first, second, keys, n - 1);
        let i = n - 1;
        // The entry at `i` is the one position that none of the positions not
        // yet listed precedes.
        let a = first[i] as int;
        let b = second[i] as int;
        if a != b {
            // `b` is not among the first `i` entries of `second`, which are
            // those of `first`, so it comes later in `first`; and the other
            // way round.
            lemma_listed_later(first, keys, b, i);
            lemma_listed_later(second, keys, a, i);
            let ja = choose|j: int| i <= j < first.len() && first[j] == b;
            let jb = choose|j: int| i <= j < second.len() && second[j] == a;
            assert(ja > i);
            assert(jb > i);
            assert(precedes(keys, first[i] as int, first[ja] as int));
            assert(precedes(keys, second[i] as int, second[jb] as int));
        }
    }
}

/// A position that is not among the first `m` entries of a listing is among
/// the others.
proof fn lemma_listed_later(order: Seq<usize>, keys: Seq<int>, x: int, m: int)
    requires
        is_descending_order(order, keys, keys.len() as int),
        0 <= x < keys.len(),
        0 <= m <= order.len(),
        forall|j: int| 0 <= j < m ==> order[j] != x,
    ensures
        exists|j: int| m <= j < order.len() && order[j] == x,
{
    lemma_listing_complete(order, keys, x);
}

/// A listing holds every position.
proof fn lemma_listing_complete(order: Seq<usize>, keys: Seq<int>, x: int)
    requires
        is_descending_order(order, keys, keys.len() as int),
        0 <= x < keys.len(),
    ensures
        exists|j: int| 0 <= j < order.len() && order[j] == x,
{
    let n = keys.len() as int;
    let listed = Set::new(|v: int| exists|j: int| 0 <= j < n && order[j] == v);
    let all = Set::new(|v: int| 0 <= v < n);
    vstd::set_lib::lemma_int_range(0, n);
    assert(all =~= vstd::set_lib::set_int_range(0, n));
    lemma_listed_count(order, keys, n);
    assert(listed.subset_of(all)) by {
        assert forall|v: int| listed.contains(v) implies all.contains(v) by {
            let j = choose|j: int| 0 <= j < n && order[j] == v;
            assert(0 <= order[j] < n);
        }
    }
    vstd::set_lib::lemma_subset_equality(listed, all);
    assert(all.contains(x));
    assert(listed.contains(x));
}

/// The first `m` entries of a listing are `m` different positions.
proof fn lemma_listed_count(order: Seq<usize>, keys: Seq<int>, m: int)
    requires
        is_descending_order(order, keys, keys.len() as int),
        0 <= m <= order.len(),
    ensures
        Set::new(|v: int| exists|j: int| 0 <= j < m && order[j] == v).finite(),
        Set::new(|v: int| exists|j: int| 0 <= j < m && order[j] == v).len() == m,
    decreases m,
{
    let now = Set::new(|v: int| exists|j: int| 0 <= j < m && order[j] == v);
    if m == 0 {
        assert(now =~= Set::<int>::empty());
    } else {
        lemma_listed_count(order, keys, m - 1);
        let before = Set::new(|v: int| exists|j: int| 0 <= j < m - 1 && order[j] == v);
        let x = order[m - 1] as int;
        assert(!before.contains(x)) by {
            if before.contains(x) {
                let j = choose|j: int| 0 <= j < m - 1 && order[j] == x;
                assert(precedes(keys, order[j] as int, order[m - 1] as int));
            }
        }
        assert(now =~= before.insert(x)) by {
            assert forall|v: int| now.contains(v) implies before.insert(x).contains(v) by {
                let j = choose|j: int| 0 <= j < m && order[j] == v;
                if j < m - 1 {
                    assert(before.contains(v));
                }
            }
            assert forall|v: int| before.insert(x).contains(v) implies now.contains(v) by {
                if v == x {
                    assert(0 <= m - 1 < m && order[m - 1] == v);
                } else {
                    let j = choose|j: int| 0 <= j < m - 1 && order[j] == v;
                    assert(0 <= j < m && order[j] == v);
                }
            }
        }
    }
}

} // verus!
