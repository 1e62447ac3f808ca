//! Selection from a table: the first row that meets a condition, and the
//! listing of the rows that meet one, in rank order and cut to a window.

use vstd::prelude::*;
use crate::db::order::{
    keys_of, lemma_rank_prefix_is_ranking, positions_of, rank_order, rank_positions, ranked,
};
use crate::db::page::{cap_bound, capped, page_bounds, page_of};
use crate::db::store::texts;

verus! {

/// Whether `i` is the index of the first row of `s` that meets `p`, or the
/// length of `s` where no row meets it.
pub open spec fn is_first<T>(s: Seq<T>, p: spec_fn(T) -> bool, i: int) -> bool {
    &&& 0 <= i <= s.len()
    &&& i < s.len() ==> p(s[i])
    &&& forall|j: int| 0 <= j < i ==> !p(#[trigger] s[j])
}

/// The index of the first row of `s` that meets `p`, or the length of `s`
/// where no row meets it.
pub open spec fn first_index<T>(s: Seq<T>, p: spec_fn(T) -> bool) -> int {
    choose|i: int| is_first(s, p, i)
}

/// Whether some row of `s` meets `p`.
pub open spec fn any_row<T>(s: Seq<T>, p: spec_fn(T) -> bool) -> bool {
    exists|i: int| 0 <= i < s.len() && p(#[trigger] s[i])
}

/// There is one first index only.
pub proof fn lemma_first_index<T>(s: Seq<T>, p: spec_fn(T) -> bool, i: int)
    requires
        is_first(s, p, i),
    ensures
        first_index(s, p) == i,
        any_row(s, p) <==> i < s.len(),
{
    let c = first_index(s, p);
    assert(is_first(s, p, c));
    if c < i {
        assert(!p(s[c]));
    }
    if i < c {
        assert(!p(s[i]));
    }
}

/// A condition that every row meets leaves the table as it is.
pub proof fn lemma_filter_all<T>(s: Seq<T>, p: spec_fn(T) -> bool)
    requires
        forall|i: int| 0 <= i < s.len() ==> p(#[trigger] s[i]),
    ensures
        s.filter(p) == s,
    decreases s.len(),
{
    reveal(Seq::filter);
    if s.len() > 0 {
        lemma_filter_all(s.drop_last(), p);
        assert(s.drop_last().push(s.last()) =~= s);
    }
}

/// A condition that no row meets leaves nothing of the table.
pub proof fn lemma_filter_none<T>(s: Seq<T>, p: spec_fn(T) -> bool)
    requires
        forall|i: int| 0 <= i < s.len() ==> !p(#[trigger] s[i]),
    ensures
        s.filter(p).len() == 0,
    decreases s.len(),
{
    reveal(Seq::filter);
    if s.len() > 0 {
        lemma_filter_none(s.drop_last(), p);
    }
}

/// Where one row alone fails a condition, the rows that meet it are the
/// table without that row.
pub proof fn lemma_filter_out_one<T>(s: Seq<T>, keep: spec_fn(T) -> bool, at: int)
    requires
        0 <= at < s.len(),
        !keep(s[at]),
        forall|j: int| 0 <= j < s.len() && j != at ==> keep(#[trigger] s[j]),
    ensures
        s.filter(keep) == s.remove(at),
    decreases s.len(),
{
    reveal(Seq::filter);
    if at == s.len() - 1 {
        lemma_filter_all(s.drop_last(), keep);
        assert(s.remove(at) =~= s.drop_last());
    } else {
        lemma_filter_out_one(s.drop_last(), keep, at);
        assert(s.remove(at) =~= s.drop_last().remove(at).push(s.last()));
    }
}

/// Whether no two rows of `s` are the same in the sense of `same`.
pub open spec fn distinct_by<T>(s: Seq<T>, same: spec_fn(T, T) -> bool) -> bool {
    forall|i: int, j: int| 0 <= i < j < s.len() ==> !same(#[trigger] s[i], #[trigger] s[j])
}

/// A table of distinct rows stays one when a row is added that is the same
/// as none of them.
pub proof fn lemma_distinct_push<T>(s: Seq<T>, same: spec_fn(T, T) -> bool, row: T)
    requires
        distinct_by(s, same),
        forall|i: int| 0 <= i < s.len() ==> !same(#[trigger] s[i], row),
    ensures
        distinct_by(s.push(row), same),
{
    let t = s.push(row);
    assert forall|i: int, j: int| 0 <= i < j < t.len() implies !same(#[trigger] t[i], #[trigger] t[j]) by {
        assert(t[i] == s[i]);
        if j < s.len() {
            assert(t[j] == s[j]);
        }
    }
}

/// A table of distinct rows stays one when a row is removed.
pub proof fn lemma_distinct_remove<T>(s: Seq<T>, same: spec_fn(T, T) -> bool, at: int)
    requires
        distinct_by(s, same),
        0 <= at < s.len(),
    ensures
        distinct_by(s.remove(at), same),
{
    let t = s.remove(at);
    assert forall|i: int, j: int| 0 <= i < j < t.len() implies !same(#[trigger] t[i], #[trigger] t[j]) by {
        let a = if i < at { i } else { i + 1 };
        let b = if j < at { j } else { j + 1 };
        assert(t[i] == s[a]);
        assert(t[j] == s[b]);
    }
}

/// A table of distinct rows stays one under a change of the rows that
/// leaves alone what makes two rows the same.
pub proof fn lemma_distinct_map<T>(s: Seq<T>, same: spec_fn(T, T) -> bool, change: spec_fn(T) -> T)
    requires
        distinct_by(s, same),
        forall|a: T, b: T| same(change(a), change(b)) == #[trigger] same(a, b),
    ensures
        distinct_by(s.map_values(change), same),
{
    let t = s.map_values(change);
    assert forall|i: int, j: int| 0 <= i < j < t.len() implies !same(#[trigger] t[i], #[trigger] t[j]) by {
        assert(!same(s[i], s[j]));
    }
}

/// The rows that meet a condition are rows of the table, in its order.
pub proof fn lemma_filter_rows<T>(s: Seq<T>, keep: spec_fn(T) -> bool)
    ensures
        forall|i: int, j: int|
            0 <= i < j < s.filter(keep).len() ==> exists|a: int, b: int|
                0 <= a < b < s.len() && s[a] == #[trigger] s.filter(keep)[i] && s[b] == #[trigger] s.filter(keep)[j],
        forall|i: int|
            0 <= i < s.filter(keep).len() ==> keep(#[trigger] s.filter(keep)[i]) && exists|a: int|
                0 <= a < s.len() && s[a] == s.filter(keep)[i],
        forall|a: int| 0 <= a < s.len() && keep(s[a]) ==> s.filter(keep).contains(#[trigger] s[a]),
    decreases s.len(),
{
    reveal(Seq::filter);
    if s.len() > 0 {
        let d = s.drop_last();
        let f = s.filter(keep);
        lemma_filter_rows(d, keep);
        assert forall|i: int| 0 <= i < f.len() implies keep(#[trigger] f[i]) && exists|a: int|
            0 <= a < s.len() && s[a] == f[i] by {
            if i < d.filter(keep).len() {
                let a = choose|a: int| 0 <= a < d.len() && d[a] == d.filter(keep)[i];
                assert(s[a] == f[i]);
            } else {
                assert(s[s.len() - 1] == f[i]);
            }
        }
        assert forall|i: int, j: int| 0 <= i < j < f.len() implies exists|a: int, b: int|
            0 <= a < b < s.len() && s[a] == #[trigger] f[i] && s[b] == #[trigger] f[j] by {
            if j < d.filter(keep).len() {
                let (a, b) = choose|a: int, b: int|
                    0 <= a < b < d.len() && d[a] == d.filter(keep)[i] && d[b] == d.filter(keep)[j];
                assert(s[a] == f[i] && s[b] == f[j]);
            } else {
                let a = choose|a: int| 0 <= a < d.len() && d[a] == d.filter(keep)[i];
                assert(s[a] == f[i] && s[s.len() - 1] == f[j]);
            }
        }
        assert forall|a: int| 0 <= a < s.len() && keep(s[a]) implies f.contains(#[trigger] s[a]) by {
            if a < d.len() {
                assert(d.filter(keep).contains(d[a]));
                let i = choose|i: int| 0 <= i < d.filter(keep).len() && d.filter(keep)[i] == d[a];
                assert(f[i] == s[a]);
            } else {
                assert(f[f.len() - 1] == s[a]);
            }
        }
    }
}

/// The rows of a table of distinct rows that meet a condition are distinct.
pub proof fn lemma_distinct_filter<T>(s: Seq<T>, same: spec_fn(T, T) -> bool, keep: spec_fn(T) -> bool)
    requires
        distinct_by(s, same),
    ensures
        distinct_by(s.filter(keep), same),
{
    lemma_filter_rows(s, keep);
    let f = s.filter(keep);
    assert forall|i: int, j: int| 0 <= i < j < f.len() implies !same(#[trigger] f[i], #[trigger] f[j]) by {
        let (a, b) = choose|a: int, b: int| 0 <= a < b < s.len() && s[a] == f[i] && s[b] == f[j];
        assert(!same(s[a], s[b]));
    }
}

/// Of the rows that meet one condition, no more meet a second one than of
/// the whole table.
pub proof fn lemma_filter_twice_len<T>(s: Seq<T>, keep: spec_fn(T) -> bool, p: spec_fn(T) -> bool)
    ensures
        s.filter(keep).filter(p).len() <= s.filter(p).len(),
    decreases s.len(),
{
    reveal(Seq::filter);
    if s.len() > 0 {
        let d = s.drop_last();
        lemma_filter_twice_len(d, keep, p);
        if keep(s.last()) {
            d.filter(keep).lemma_filter_push(s.last(), p);
        }
    }
}

/// The part of a listing that a request asks for.
#[derive(Debug, Clone, Copy)]
pub enum Window {
    /// One page of `PER_PAGE` rows; a page below 1 is the whole listing.
    Page(i32),
    /// The first rows, up to the given number.
    Top(usize),
}

impl Window {
    /// The part of `s` that this window selects.
    pub open spec fn cut<T>(self, s: Seq<T>) -> Seq<T> {
        match self {
            Window::Page(page) => page_of(s, page as int),
            Window::Top(limit) => capped(s, limit as int),
        }
    }
}

/// The indices below `n` at which `flags` holds a key, in ascending order.
pub open spec fn hits(flags: Seq<Option<int>>, n: int) -> Seq<int>
    decreases n,
{
    if n <= 0 {
        Seq::empty()
    } else if flags[n - 1] is Some {
        hits(flags, n - 1).push(n - 1)
    } else {
        hits(flags, n - 1)
    }
}

/// The keys that `flags` holds at the indices below `n`, in ascending order
/// of index.
pub open spec fn hit_keys(flags: Seq<Option<int>>, n: int) -> Seq<int> {
    hits(flags, n).map_values(|h: int| flags[h]->0)
}

/// The indices at which `flags` holds a key, highest key first, and among
/// equal keys the lower index first.
pub open spec fn listing(flags: Seq<Option<int>>) -> Seq<int> {
    let chosen = hits(flags, flags.len() as int);
    rank_order(hit_keys(flags, flags.len() as int)).map_values(|o: int| chosen[o])
}

/// What `flags` says of the rows of `s`: a key for each row that meets `p`,
/// nothing for the others.
pub open spec fn flags_describe<T>(
    flags: Seq<Option<int>>,
    s: Seq<T>,
    p: spec_fn(T) -> bool,
    key: spec_fn(T) -> int,
) -> bool {
    &&& flags.len() == s.len()
    &&& forall|i: int|
        0 <= i < s.len() ==> #[trigger] flags[i] == (if p(s[i]) {
            Some(key(s[i]))
        } else {
            None
        })
}

proof fn lemma_hits_in_range(flags: Seq<Option<int>>, n: int)
    requires
        0 <= n <= flags.len(),
    ensures
        hits(flags, n).len() <= n,
        forall|k: int| 0 <= k < hits(flags, n).len() ==> 0 <= #[trigger] hits(flags, n)[k] < n && flags[hits(flags, n)[k]] is Some,
    decreases n,
{
    if n > 0 {
        lemma_hits_in_range(flags, n - 1);
    }
}

proof fn lemma_hits_filter<T>(
    flags: Seq<Option<int>>,
    s: Seq<T>,
    p: spec_fn(T) -> bool,
    key: spec_fn(T) -> int,
    n: int,
)
    requires
        flags_describe(flags, s, p, key),
        0 <= n <= s.len(),
    ensures
        hits(flags, n).map_values(|h: int| s[h]) == s.take(n).filter(p),
    decreases n,
{
    reveal(Seq::filter);
    if n <= 0 {
        assert(s.take(n).filter(p) =~= Seq::<T>::empty());
        assert(hits(flags, n).map_values(|h: int| s[h]) =~= Seq::<T>::empty());
    } else {
        lemma_hits_filter(flags, s, p, key, n - 1);
        assert(s.take(n).drop_last() =~= s.take(n - 1));
        assert(s.take(n).last() == s[n - 1]);
        assert(flags[n - 1] is Some <==> p(s[n - 1]));
        if p(s[n - 1]) {
            assert(hits(flags, n).map_values(|h: int| s[h]) =~= hits(flags, n - 1).map_values(
                |h: int| s[h],
            ).push(s[n - 1]));
        }
    }
}

/// The listing computed from flags is the listing of the rows themselves:
/// the rows that meet `p`, in rank order of `key`.
pub proof fn lemma_listing_rows<T>(
    flags: Seq<Option<int>>,
    s: Seq<T>,
    p: spec_fn(T) -> bool,
    key: spec_fn(T) -> int,
)
    requires
        flags_describe(flags, s, p, key),
    ensures
        listing(flags).map_values(|i: int| s[i]) == ranked(s.filter(p), key),
        listing(flags).len() == s.filter(p).len(),
        forall|k: int|
            0 <= k < listing(flags).len() ==> 0 <= #[trigger] listing(flags)[k] < s.len() && p(
                s[listing(flags)[k]],
            ),
{
    let n = s.len() as int;
    let chosen = hits(flags, n);
    let found = s.filter(p);
    lemma_hits_filter(flags, s, p, key, n);
    lemma_hits_in_range(flags, n);
    assert(s.take(n) =~= s);
    assert(found == chosen.map_values(|h: int| s[h]));
    let keys = hit_keys(flags, n);
    assert(found.map_values(key) =~= keys);
    lemma_rank_prefix_is_ranking(keys, keys.len() as int);
    let order = rank_order(keys);
    assert(listing(flags).map_values(|i: int| s[i]) =~= ranked(found, key));
    assert forall|k: int| 0 <= k < listing(flags).len() implies 0 <= #[trigger] listing(flags)[k] < s.len() && p(
        s[listing(flags)[k]],
    ) by {
        assert(0 <= order[k] < chosen.len());
        assert(listing(flags)[k] == chosen[order[k]]);
    }
}

/// A window cuts a listing of rows as it cuts the listing of their indices.
pub proof fn lemma_cut_map<A, B>(window: Window, s: Seq<A>, f: spec_fn(A) -> B)
    ensures
        window.cut(s.map_values(f)) == window.cut(s).map_values(f),
{
    assert(window.cut(s.map_values(f)) =~= window.cut(s).map_values(f));
}

/// The flags of a vector as mathematical values.
pub open spec fn flags_of(flags: Seq<Option<i64>>) -> Seq<Option<int>> {
    flags.map_values(
        |f: Option<i64>|
            match f {
                Some(k) => Some(k as int),
                None => None,
            },
    )
}

/// Computes the indices at which `flags` holds a key, highest key first and
/// among equal keys the lower index first, cut to `window`; and with them
/// the number of such indices before the cut.
pub fn arrange(flags: &Vec<Option<i64>>, window: Window) -> (found: (Vec<usize>, usize))
    ensures
        positions_of(found.0@) == window.cut(listing(flags_of(flags@))),
        found.1 == listing(flags_of(flags@)).len(),
        forall|j: int| 0 <= j < found.0.len() ==> #[trigger] found.0[j] < flags.len(),
{
    let ghost fl = flags_of(flags@);
    let mut chosen: Vec<usize> = Vec::new();
    let mut keys: Vec<i64> = Vec::new();
    let mut i: usize = 0;
    while i < flags.len()
        invariant
            i <= flags.len(),
            fl == flags_of(flags@),
            positions_of(chosen@) =~= hits(fl, i as int),
            keys_of(keys@) =~= hit_keys(fl, i as int),
            forall|k: int| 0 <= k < chosen.len() ==> #[trigger] chosen[k] < i,
        decreases flags.len() - i,
    {
        assert(fl[i as int] == (match flags@[i as int] {
            Some(k) => Some(k as int),
            None => None,
        }));
        let ghost chosen_before = chosen@;
        let ghost keys_before = keys@;
        match flags[i] {
            Some(k) => {
                chosen.push(i);
                keys.push(k);
                proof {
                    assert(positions_of(chosen@) =~= positions_of(chosen_before).push(i as int));
                    assert(keys_of(keys@) =~= keys_of(keys_before).push(k as int));
                    assert(hit_keys(fl, i + 1) =~= hit_keys(fl, i as int).push(k as int));
                }
            },
            None => {},
        }
        i = i + 1;
    }
    let order = rank_positions(&keys);
    let (lo, hi) = match window {
        Window::Page(page) => page_bounds(page, order.len()),
        Window::Top(limit) => (0, cap_bound(limit, order.len())),
    };
    let ghost whole = listing(fl);
    proof {
        assert(whole =~= positions_of(order@).map_values(|o: int| positions_of(chosen@)[o]));
        assert(window.cut(whole) =~= whole.subrange(lo as int, hi as int));
    }
    let mut out: Vec<usize> = Vec::new();
    let mut j: usize = lo;
    while j < hi
        invariant
            lo <= j <= hi <= order.len(),
            order.len() == chosen.len(),
            whole.len() == order.len(),
            forall|k: int| 0 <= k < order.len() ==> #[trigger] order[k] < chosen.len(),
            forall|k: int| 0 <= k < chosen.len() ==> #[trigger] chosen[k] < flags.len(),
            forall|k: int| 0 <= k < order.len() ==> whole[k] == chosen[order[k] as int],
            positions_of(out@) =~= whole.subrange(lo as int, j as int),
            forall|k: int| 0 <= k < out.len() ==> #[trigger] out[k] < flags.len(),
        decreases hi - j,
    {
        let ghost out_before = out@;
        out.push(chosen[order[j]]);
        proof {
            assert(whole[j as int] == chosen[order[j as int] as int]);
            assert(positions_of(out@) =~= positions_of(out_before).push(whole[j as int]));
            assert(whole.subrange(lo as int, j + 1) =~= whole.subrange(lo as int, j as int).push(
                whole[j as int],
            ));
        }
        j = j + 1;
    }
    (out, order.len())
}

/// What `entries` says of the rows of `s`: a key for each row that meets
/// `p`, together with the text that `pick` takes from the row.
pub open spec fn entries_describe<T>(
    entries: Seq<(Option<i64>, String)>,
    s: Seq<T>,
    p: spec_fn(T) -> bool,
    key: spec_fn(T) -> int,
    pick: spec_fn(T) -> Seq<char>,
) -> bool {
    &&& entries.len() == s.len()
    &&& forall|i: int|
        0 <= i < s.len() ==> (#[trigger] entries[i]).0 == (if p(s[i]) {
            Some(key(s[i]) as i64)
        } else {
            None
        })
    &&& forall|i: int| 0 <= i < s.len() && p(s[i]) ==> (#[trigger] entries[i]).1@ == pick(s[i])
    &&& forall|i: int| 0 <= i < s.len() && p(s[i]) ==> i64::MIN <= #[trigger] key(s[i]) <= i64::MAX
}

/// The keys of a list of entries.
pub open spec fn entry_flags(entries: Seq<(Option<i64>, String)>) -> Seq<Option<i64>> {
    entries.map_values(|e: (Option<i64>, String)| e.0)
}

/// The texts of a listing of entries: the text of each entry that holds a
/// key, highest key first and among equal keys the earlier entry first, cut
/// to a window.
pub open spec fn listed_texts(entries: Seq<(Option<i64>, String)>, window: Window) -> Seq<Seq<char>> {
    window.cut(listing(flags_of(entry_flags(entries)))).map_values(|i: int| entries[i].1@)
}

/// The texts listed from entries are the texts picked from the rows that
/// the entries describe: those that meet `p`, in rank order of `key`, cut to
/// the window.
pub proof fn lemma_listed_texts<T>(
    entries: Seq<(Option<i64>, String)>,
    window: Window,
    s: Seq<T>,
    p: spec_fn(T) -> bool,
    key: spec_fn(T) -> int,
    pick: spec_fn(T) -> Seq<char>,
)
    requires
        entries_describe(entries, s, p, key, pick),
    ensures
        listed_texts(entries, window) == window.cut(ranked(s.filter(p), key)).map_values(pick),
        listing(flags_of(entry_flags(entries))).len() == s.filter(p).len(),
{
    let flags = flags_of(entry_flags(entries));
    assert(flags_describe(flags, s, p, key)) by {
        assert forall|i: int| 0 <= i < s.len() implies #[trigger] flags[i] == (if p(s[i]) {
            Some(key(s[i]))
        } else {
            None::<int>
        }) by {
            assert(entry_flags(entries)[i] == entries[i].0);
        }
    }
    lemma_listing_rows(flags, s, p, key);
    lemma_cut_map(window, listing(flags), |i: int| s[i]);
    let cut = window.cut(listing(flags));
    assert forall|k: int| 0 <= k < cut.len() implies 0 <= #[trigger] cut[k] < s.len() && p(s[cut[k]]) by {
        let whole = listing(flags);
        match window {
            Window::Page(page) => {
                let lo = crate::db::page::page_start(page as int, whole.len() as int);
                assert(cut[k] == whole[lo + k]);
            },
            Window::Top(limit) => {
                assert(cut[k] == whole[k]);
            },
        }
    }
    assert(listed_texts(entries, window) =~= cut.map_values(|i: int| s[i]).map_values(pick));
}

/// Computes the texts of the entries that hold a key, highest key first and
/// among equal keys the earlier entry first, cut to `window`; and with them
/// the number of such entries before the cut.
pub fn arrange_texts(entries: &Vec<(Option<i64>, String)>, window: Window) -> (found: (Vec<String>, usize))
    ensures
        texts(found.0@) == listed_texts(entries@, window),
        found.1 == listing(flags_of(entry_flags(entries@))).len(),
{
    let mut flags: Vec<Option<i64>> = Vec::new();
    let mut i: usize = 0;
    while i < entries.len()
        invariant
            i <= entries.len(),
            flags@ =~= entry_flags(entries@).take(i as int),
        decreases entries.len() - i,
    {
        flags.push(entries[i].0);
        i = i + 1;
    }
    assert(flags@ =~= entry_flags(entries@));
    let (at, total) = arrange(&flags, window);
    let mut out: Vec<String> = Vec::new();
    let mut j: usize = 0;
    while j < at.len()
        invariant
            j <= at.len(),
            flags.len() == entries.len(),
            forall|k: int| 0 <= k < at.len() ==> #[trigger] at[k] < flags.len(),
            texts(out@) =~= positions_of(at@).take(j as int).map_values(
                |i: int| entries@[i].1@,
            ),
        decreases at.len() - j,
    {
        let ghost before = out@;
        out.push(entries[at[j]].1.clone());
        proof {
            assert(texts(out@) =~= texts(before).push(
                entries@[at[j as int] as int].1@,
            ));
            assert(positions_of(at@).take(j + 1) =~= positions_of(at@).take(j as int).push(at[j as int] as int));
        }
        j = j + 1;
    }
    assert(positions_of(at@).take(at.len() as int) =~= positions_of(at@));
    (out, total)
}

} // verus!
