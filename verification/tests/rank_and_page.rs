use ruthub::db::order::rank_positions;
use ruthub::db::page::{cap_bound, page_bounds};
use ruthub::db::select::{arrange, arrange_texts, Window};
use ruthub::model::PER_PAGE;
use ruthub::rank::{checked_rut_vote, checked_tag_vote};

#[test]
fn rut_vote_weighs_items_double() {
    assert_eq!(checked_rut_vote(3, 4, 5), Some(3 * 2 + 4 + 5));
    assert_eq!(checked_rut_vote(0, 0, 0), Some(0));
    assert_eq!(checked_rut_vote(1, 0, -3), Some(-1));
}

#[test]
fn rut_vote_out_of_range_is_none() {
    assert_eq!(checked_rut_vote(i32::MAX, 0, 0), None);
    assert_eq!(checked_rut_vote(0, i32::MAX, 1), None);
    assert_eq!(checked_rut_vote(i32::MIN, 0, 0), None);
    assert_eq!(checked_rut_vote(0, i32::MAX, 0), Some(i32::MAX));
}

#[test]
fn tag_vote_weighs_ruts_double() {
    assert_eq!(checked_tag_vote(7, 2), Some(16));
    assert_eq!(checked_tag_vote(1, 0), Some(2));
    assert_eq!(checked_tag_vote(i32::MAX, 0), None);
}

#[test]
fn per_page_is_twenty() {
    assert_eq!(PER_PAGE, 20);
}

#[test]
fn page_two_of_forty_five_is_rows_21_to_40() {
    assert_eq!(page_bounds(2, 45), (20, 40));
}

#[test]
fn page_three_of_forty_five_is_rows_41_to_45() {
    assert_eq!(page_bounds(3, 45), (40, 45));
}

#[test]
fn page_below_one_is_everything() {
    assert_eq!(page_bounds(0, 45), (0, 45));
    assert_eq!(page_bounds(-7, 45), (0, 45));
    assert_eq!(page_bounds(i32::MIN, 3), (0, 3));
}

#[test]
fn page_behind_the_end_is_empty() {
    assert_eq!(page_bounds(4, 45), (45, 45));
    assert_eq!(page_bounds(i32::MAX, 45), (45, 45));
    assert_eq!(page_bounds(1, 0), (0, 0));
}

#[test]
fn first_page_of_a_short_listing() {
    assert_eq!(page_bounds(1, 5), (0, 5));
    assert_eq!(page_bounds(1, 20), (0, 20));
    assert_eq!(page_bounds(1, 21), (0, 20));
    assert_eq!(page_bounds(2, 21), (20, 21));
}

#[test]
fn cap_bound_is_the_smaller() {
    assert_eq!(cap_bound(10, 3), 3);
    assert_eq!(cap_bound(10, 10), 10);
    assert_eq!(cap_bound(10, 11), 10);
    assert_eq!(cap_bound(0, 11), 0);
}

#[test]
fn rank_positions_highest_key_first() {
    assert_eq!(rank_positions(&vec![10, 30, 20]), vec![1, 2, 0]);
    assert_eq!(rank_positions(&vec![]), Vec::<usize>::new());
    assert_eq!(rank_positions(&vec![-1]), vec![0]);
}

#[test]
fn rank_positions_keeps_equal_keys_in_order() {
    assert_eq!(rank_positions(&vec![5, 7, 5, 7, 5]), vec![1, 3, 0, 2, 4]);
    assert_eq!(rank_positions(&vec![1, 1, 1]), vec![0, 1, 2]);
}

#[test]
fn rank_positions_is_a_permutation() {
    let keys: Vec<i64> = vec![3, -4, 9, 9, 0, i64::MAX, i64::MIN, 3];
    let order = rank_positions(&keys);
    let mut seen = vec![false; keys.len()];
    for &p in &order {
        assert!(!seen[p]);
        seen[p] = true;
    }
    assert!(seen.iter().all(|s| *s));
    for w in order.windows(2) {
        assert!(keys[w[0]] > keys[w[1]] || (keys[w[0]] == keys[w[1]] && w[0] < w[1]));
    }
}

#[test]
fn arrange_skips_rows_without_key() {
    let flags = vec![Some(1), None, Some(3), None, Some(2)];
    let (at, total) = arrange(&flags, Window::Page(0));
    assert_eq!(at, vec![2, 4, 0]);
    assert_eq!(total, 3);
}

#[test]
fn arrange_cuts_to_the_window() {
    let flags: Vec<Option<i64>> = (0..45).map(|k| Some(k as i64)).collect();
    let (page2, total) = arrange(&flags, Window::Page(2));
    assert_eq!(total, 45);
    assert_eq!(page2, (5..25).rev().collect::<Vec<usize>>());
    let (page3, _) = arrange(&flags, Window::Page(3));
    assert_eq!(page3, (0..5).rev().collect::<Vec<usize>>());
    let (top, _) = arrange(&flags, Window::Top(3));
    assert_eq!(top, vec![44, 43, 42]);
}

#[test]
fn arrange_texts_lists_payloads_in_rank_order() {
    let entries = vec![
        (Some(2), "b".to_string()),
        (None, "skipped".to_string()),
        (Some(9), "a".to_string()),
        (Some(2), "c".to_string()),
    ];
    let (texts, total) = arrange_texts(&entries, Window::Top(10));
    assert_eq!(texts, vec!["a".to_string(), "b".to_string(), "c".to_string()]);
    assert_eq!(total, 3);
    let (first, _) = arrange_texts(&entries, Window::Top(1));
    assert_eq!(first, vec!["a".to_string()]);
}
