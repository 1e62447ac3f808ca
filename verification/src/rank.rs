//! Ranking policy: the vote scores derived from the denormalized counters.

use vstd::prelude::*;

verus! {

/// Vote of a rut: linked items weigh double, comments and stars once.
pub open spec fn rut_vote(item_count: int, comment_count: int, star_count: int) -> int {
    item_count * 2 + comment_count + star_count
}

/// Vote of a tag: tagged ruts weigh double, stars once.
pub open spec fn tag_vote(rut_count: int, star_count: int) -> int {
    rut_count * 2 + star_count
}

/// Whether `n` can be stored in a 32-bit counter column.
pub open spec fn fits_counter(n: int) -> bool {
    i32::MIN <= n <= i32::MAX
}

/// Computes the vote of a rut, or `None` when the score does not fit the
/// counter column.
pub fn checked_rut_vote(item_count: i32, comment_count: i32, star_count: i32) -> (vote: Option<i32>)
    ensures
        fits_counter(rut_vote(item_count as int, comment_count as int, star_count as int))
            ==> vote == Some(rut_vote(item_count as int, comment_count as int, star_count as int) as i32),
        !fits_counter(rut_vote(item_count as int, comment_count as int, star_count as int))
            ==> vote.is_none(),
{
    let wide: i64 = (item_count as i64) * 2 + (comment_count as i64) + (star_count as i64);
    if wide < i32::MIN as i64 || wide > i32::MAX as i64 {
        None
    } else {
        Some(wide as i32)
    }
}

/// Computes the vote of a tag, or `None` when the score does not fit the
/// counter column.
pub fn checked_tag_vote(rut_count: i32, star_count: i32) -> (vote: Option<i32>)
    ensures
        fits_counter(tag_vote(rut_count as int, star_count as int))
            ==> vote == Some(tag_vote(rut_count as int, star_count as int) as i32),
        !fits_counter(tag_vote(rut_count as int, star_count as int)) ==> vote.is_none(),
{
    let wide: i64 = (rut_count as i64) * 2 + (star_count as i64);
    if wide < i32::MIN as i64 || wide > i32::MAX as i64 {
        None
    } else {
        Some(wide as i32)
    }
}

} // verus!
