//! Pagination: which window of a listing a page number selects.

use vstd::prelude::*;
use crate::model::PER_PAGE;

verus! {

/// Index of the first row of page `page` in a listing of `len` rows. A page
/// below 1 selects the whole listing.
pub open spec fn page_start(page: int, len: int) -> int {
    if page < 1 {
        0
    } else if PER_PAGE * (page - 1) < len {
        PER_PAGE * (page - 1)
    } else {
        len
    }
}

/// Index behind the last row of page `page` in a listing of `len` rows.
pub open spec fn page_end(page: int, len: int) -> int {
    if page < 1 {
        len
    } else if PER_PAGE * page < len {
        PER_PAGE * page
    } else {
        len
    }
}

/// The rows of `s` on page `page`: everything for a page below 1, else the
/// `PER_PAGE` rows behind the first `PER_PAGE * (page - 1)`, as far as there
/// are any.
pub open spec fn page_of<T>(s: Seq<T>, page: int) -> Seq<T> {
    s.subrange(page_start(page, s.len() as int), page_end(page, s.len() as int))
}

/// The first `limit` rows of `s`, or all of them where there are fewer.
pub open spec fn capped<T>(s: Seq<T>, limit: int) -> Seq<T> {
    if 0 <= limit < s.len() {
        s.take(limit)
    } else {
        s
    }
}

/// Computes the window of page `page` in a listing of `len` rows: the index
/// of its first row and the index behind its last.
pub fn page_bounds(page: i32, len: usize) -> (bounds: (usize, usize))
    ensures
        bounds.0 == page_start(page as int, len as int),
        bounds.1 == page_end(page as int, len as int),
        bounds.0 <= bounds.1 <= len,
{
    if page < 1 {
        return (0, len);
    }
    let per: u64 = PER_PAGE as u64;
    assert(per == 20);
    let offset: u64 = (page as u64 - 1) * per;
    let total: u64 = len as u64;
    if offset >= total {
        (len, len)
    } else if offset + per >= total {
        (offset as usize, len)
    } else {
        (offset as usize, (offset + per) as usize)
    }
}

/// The number of rows that a fixed limit leaves of a listing of `len` rows.
pub fn cap_bound(limit: usize, len: usize) -> (bound: usize)
    ensures
        bound == (if limit < len { limit } else { len }),
{
    if limit < len {
        limit
    } else {
        len
    }
}

/// Row `k` of page `page` is the row of the listing that has
/// `PER_PAGE * (page - 1) + k` rows before it.
pub proof fn lemma_page_rows<T>(s: Seq<T>, page: int, k: int)
    requires
        page >= 1,
        0 <= k < page_of(s, page).len(),
    ensures
        PER_PAGE * (page - 1) + k < s.len(),
        page_of(s, page)[k] == s[PER_PAGE * (page - 1) + k],
{
}

/// Consecutive pages follow one another without gap or overlap: the rows of
/// page `page` and of the next one are the rows from the start of the first
/// to the end of the second.
pub proof fn lemma_pages_adjoin<T>(s: Seq<T>, page: int)
    requires
        page >= 1,
    ensures
        page_end(page, s.len() as int) == page_start(page + 1, s.len() as int),
        page_of(s, page) + page_of(s, page + 1) == s.subrange(
            page_start(page, s.len() as int),
            page_end(page + 1, s.len() as int),
        ),
{
    assert(page_of(s, page) + page_of(s, page + 1) =~= s.subrange(
        page_start(page, s.len() as int),
        page_end(page + 1, s.len() as int),
    ));
}

/// A page never holds more than `PER_PAGE` rows, and a page below 1 holds
/// the whole listing.
pub proof fn lemma_page_size<T>(s: Seq<T>, page: int)
    ensures
        page < 1 ==> page_of(s, page) == s,
        page >= 1 ==> page_of(s, page).len() <= PER_PAGE,
        page >= 1 && PER_PAGE * page <= s.len() ==> page_of(s, page).len() == PER_PAGE,
{
    if page < 1 {
        assert(page_of(s, page) =~= s);
    }
}

} // verus!
