//! Ordering of listings: highest key first, and among equal keys the row
//! that stands first in its table.

use vstd::prelude::*;

verus! {

/// `order` with position `p` put behind the last position whose key is not
/// below that of `p`.
pub open spec fn placed(order: Seq<int>, keys: Seq<int>, p: int) -> Seq<int>
    decreases order.len(),
{
    if order.len() == 0 {
        seq![p]
    } else if keys[order.last()] >= keys[p] {
        order.push(p)
    } else {
        placed(order.drop_last(), keys, p).push(order.last())
    }
}

/// The first `n` positions of `keys`, highest key first; positions with equal
/// keys stay in ascending order.
pub open spec fn rank_prefix(keys: Seq<int>, n: int) -> Seq<int>
    decreases n,
{
    if n <= 0 {
        Seq::empty()
    } else {
        placed(rank_prefix(keys, n - 1), keys, n - 1)
    }
}

/// The positions of `keys`, highest key first; positions with equal keys
/// stay in ascending order.
pub open spec fn rank_order(keys: Seq<int>) -> Seq<int> {
    rank_prefix(keys, keys.len() as int)
}

/// The rows of `s`, highest key first; rows with equal keys keep the order
/// that they have in `s`.
pub open spec fn ranked<T>(s: Seq<T>, key: spec_fn(T) -> int) -> Seq<T> {
    rank_order(s.map_values(key)).map_values(|p: int| s[p])
}

/// `order` lists each of the first `n` positions of `keys` once, highest key
/// first, and positions with equal keys in ascending order.
pub open spec fn is_ranking(order: Seq<int>, keys: Seq<int>, n: int) -> bool {
    &&& order.len() == n
    &&& forall|i: int| 0 <= i < order.len() ==> 0 <= #[trigger] order[i] < n
    &&& forall|p: int| 0 <= p < n ==> order.contains(p)
    &&& forall|i: int, j: int|
        0 <= i < j < order.len() ==> keys[#[trigger] order[i]] > keys[#[trigger] order[j]] || (keys[order[i]]
            == keys[order[j]] && order[i] < order[j])
}

/// Where `placed` puts a position: at the one index that has only lower keys
/// behind it and no lower key directly before it.
pub proof fn lemma_placed_at(order: Seq<int>, keys: Seq<int>, p: int, c: int)
    requires
        0 <= c <= order.len(),
        forall|j: int| c <= j < order.len() ==> keys[#[trigger] order[j]] < keys[p],
        c > 0 ==> keys[order[c - 1]] >= keys[p],
    ensures
        placed(order, keys, p) == order.insert(c, p),
    decreases order.len() - c,
{
    if order.len() == 0 {
        assert(order.insert(c, p) =~= seq![p]);
    } else if c == order.len() {
        assert(order.insert(c, p) =~= order.push(p));
    } else {
        assert(keys[order[order.len() - 1]] < keys[p]);
        lemma_placed_at(order.drop_last(), keys, p, c);
        assert(order.insert(c, p) =~= order.drop_last().insert(c, p).push(order.last()));
    }
}

/// The index at which `placed` puts position `p`.
pub open spec fn place_index(order: Seq<int>, keys: Seq<int>, p: int) -> int
    decreases order.len(),
{
    if order.len() == 0 {
        0
    } else if keys[order.last()] >= keys[p] {
        order.len() as int
    } else {
        place_index(order.drop_last(), keys, p)
    }
}

proof fn lemma_place_index(order: Seq<int>, keys: Seq<int>, p: int)
    ensures
        0 <= place_index(order, keys, p) <= order.len(),
        forall|j: int|
            place_index(order, keys, p) <= j < order.len() ==> keys[#[trigger] order[j]] < keys[p],
        place_index(order, keys, p) > 0 ==> keys[order[place_index(order, keys, p) - 1]] >= keys[p],
        placed(order, keys, p) == order.insert(place_index(order, keys, p), p),
    decreases order.len(),
{
    if order.len() == 0 {
    } else if keys[order.last()] >= keys[p] {
    } else {
        lemma_place_index(order.drop_last(), keys, p);
        let c = place_index(order.drop_last(), keys, p);
        assert forall|j: int| c <= j < order.len() implies keys[#[trigger] order[j]] < keys[p] by {
            if j < order.len() - 1 {
                assert(order[j] == order.drop_last()[j]);
            }
        }
        assert(c > 0 ==> order[c - 1] == order.drop_last()[c - 1]);
    }
    lemma_placed_at(order, keys, p, place_index(order, keys, p));
}

proof fn lemma_placed_keeps_ranking(order: Seq<int>, keys: Seq<int>, n: int)
    requires
        is_ranking(order, keys, n),
        0 <= n,
    ensures
        is_ranking(placed(order, keys, n), keys, n + 1),
{
    lemma_place_index(order, keys, n);
    let c = place_index(order, keys, n);
    let out = order.insert(c, n);
    assert(out.len() == n + 1);
    assert forall|i: int| 0 <= i < out.len() implies 0 <= #[trigger] out[i] < n + 1 by {
        if i < c {
            assert(out[i] == order[i]);
        } else if i > c {
            assert(out[i] == order[i - 1]);
        }
    }
    assert forall|p: int| 0 <= p < n + 1 implies out.contains(p) by {
        if p == n {
            assert(out[c] == n);
        } else {
            assert(order.contains(p));
            let i = choose|i: int| 0 <= i < order.len() && order[i] == p;
            if i < c {
                assert(out[i] == p);
            } else {
                assert(out[i + 1] == p);
            }
        }
    }
    assert forall|i: int, j: int| 0 <= i < j < out.len() implies keys[#[trigger] out[i]] > keys[#[trigger] out[j]]
        || (keys[out[i]] == keys[out[j]] && out[i] < out[j]) by {
        let a = if i < c { i } else { i - 1 };
        let b = if j < c { j } else { j - 1 };
        if i != c {
            assert(out[i] == order[a]);
        }
        if j != c {
            assert(out[j] == order[b]);
        }
        if j == c {
            // every row before the new one has a key that is not lower
            if i < c - 1 {
                assert(keys[order[i]] > keys[order[c - 1]] || keys[order[i]] == keys[order[c - 1]]);
            }
        }
    }
}

/// `rank_prefix` lists each of the first `n` positions once, highest key
/// first, equal keys in ascending order of position.
pub proof fn lemma_rank_prefix_is_ranking(keys: Seq<int>, n: int)
    requires
        0 <= n,
    ensures
        is_ranking(rank_prefix(keys, n), keys, n),
    decreases n,
{
    if n > 0 {
        lemma_rank_prefix_is_ranking(keys, n - 1);
        lemma_placed_keeps_ranking(rank_prefix(keys, n - 1), keys, n - 1);
    }
}

/// A listing in rank order holds the rows of the table it was made from,
/// each once, with no key followed by a higher one, and rows of equal key in
/// the order of the table.
pub proof fn lemma_ranked_is_sorted<T>(s: Seq<T>, key: spec_fn(T) -> int)
    ensures
        ranked(s, key).len() == s.len(),
        is_ranking(rank_order(s.map_values(key)), s.map_values(key), s.len() as int),
        forall|i: int| 0 <= i < s.len() ==> ranked(s, key)[i] == s[rank_order(s.map_values(key))[i]],
        forall|i: int, j: int|
            0 <= i < j < s.len() ==> key(#[trigger] ranked(s, key)[i]) >= key(#[trigger] ranked(s, key)[j]),
{
    let keys = s.map_values(key);
    let order = rank_order(keys);
    lemma_rank_prefix_is_ranking(keys, keys.len() as int);
    assert forall|i: int, j: int| 0 <= i < j < s.len() implies key(#[trigger] ranked(s, key)[i]) >= key(
        #[trigger] ranked(s, key)[j],
    ) by {
        assert(0 <= order[i] < s.len());
        assert(0 <= order[j] < s.len());
        assert(keys[order[i]] == key(s[order[i]]));
        assert(keys[order[j]] == key(s[order[j]]));
    }
}

/// The keys of a vector as mathematical integers.
pub open spec fn keys_of(keys: Seq<i64>) -> Seq<int> {
    keys.map_values(|k: i64| k as int)
}

/// The positions of a vector as mathematical integers.
pub open spec fn positions_of(order: Seq<usize>) -> Seq<int> {
    order.map_values(|p: usize| p as int)
}

/// Computes the rank order of `keys`: the positions `0..keys.len()`, highest
/// key first, equal keys in ascending order of position.
pub fn rank_positions(keys: &Vec<i64>) -> (order: Vec<usize>)
    ensures
        positions_of(order@) == rank_order(keys_of(keys@)),
        order.len() == keys.len(),
        forall|i: int| 0 <= i < order.len() ==> #[trigger] order[i] < keys.len(),
{
    let mut order: Vec<usize> = Vec::new();
    let mut n: usize = 0;
    assert(positions_of(order@) =~= rank_prefix(keys_of(keys@), 0));
    while n < keys.len()
        invariant
            n <= keys.len(),
            order.len() == n,
            positions_of(order@) == rank_prefix(keys_of(keys@), n as int),
            forall|i: int| 0 <= i < order.len() ==> #[trigger] order[i] < n,
        decreases keys.len() - n,
    {
        let ghost before = positions_of(order@);
        let mut c: usize = order.len();
        while c > 0 && keys[order[c - 1]] < keys[n]
            invariant
                c <= order.len(),
                order.len() == n,
                n < keys.len(),
                forall|i: int| 0 <= i < order.len() ==> #[trigger] order[i] < n,
                forall|j: int| c <= j < order.len() ==> keys[#[trigger] order[j] as int] < keys[n as int],
            decreases c,
        {
            c = c - 1;
        }
        order.insert(c, n);
        proof {
            let ks = keys_of(keys@);
            assert forall|j: int| c <= j < before.len() implies ks[#[trigger] before[j]] < ks[n as int] by {
                assert(before[j] == positions_of(order@)[j + 1]);
            }
            if c > 0 {
                assert(before[c - 1] == positions_of(order@)[c - 1]);
            }
            lemma_placed_at(before, ks, n as int, c as int);
            assert(positions_of(order@) =~= before.insert(c as int, n as int));
        }
        n = n + 1;
    }
    order
}

} // verus!
