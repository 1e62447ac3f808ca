//! What holds of the store whatever is asked of it.

use vstd::prelude::*;
use crate::db::listing::{by_link_count, link_under};
use crate::db::order::lemma_ranked_is_sorted;
use crate::db::rut::{not_rut_star_of, stars_moved_on};
use crate::db::select::{
    lemma_distinct_filter, lemma_distinct_map, lemma_distinct_push, lemma_filter_none, lemma_filter_rows,
    lemma_filter_twice_len, lemma_first_index,
};
use crate::db::store::{
    link_joining, rut_star_of, rut_with_url, same_rut, same_rut_star, same_tag_star, tag_star_by, tag_star_of,
    StoreView,
};
use crate::db::tag::{lemma_link_applied, lemma_tags_changed, lemma_without_link, not_link_joining};
use crate::db::tagstar::{not_tag_star_of, tag_stars_moved_on};
use crate::errors::ServiceError;
use crate::model::msg::{replies, Msg, RutMsg};
use crate::model::rut::{CreateRut, QueryRuts, StarOrRut};
use crate::model::tag::{StarOrTag, TagRutView};
use crate::rank::{rut_vote, tag_vote};
use crate::text::trimmed;

verus! {

/// In a store that obeys its rules, the vote of every rut is twice its items
/// plus its comments plus its stars, and the vote of every tag is twice its
/// ruts plus its stars.
pub proof fn lemma_votes_follow_counters(s: StoreView)
    requires
        s.wf(),
    ensures
        forall|i: int|
            0 <= i < s.ruts.len() ==> (#[trigger] s.ruts[i]).vote == rut_vote(
                s.ruts[i].item_count,
                s.ruts[i].comment_count,
                s.ruts[i].star_count,
            ),
        forall|i: int|
            0 <= i < s.tags.len() ==> (#[trigger] s.tags[i]).vote == tag_vote(s.tags[i].rut_count, s.tags[i].star_count),
{
}

/// Whatever a request to star or unstar a rut is answered with, the store
/// obeys its rules afterwards; so every vote still agrees with its counters.
pub proof fn lemma_rut_star_keeps_rules(
    s: StoreView,
    act: StarOrRut,
    star_id: Seq<char>,
    now: int,
    after: StoreView,
    res: Result<Msg, ServiceError>,
)
    requires
        s.wf(),
        s.rut_star_moved(act, star_id, now, after, res),
    ensures
        after.wf(),
{
    if after != s {
        if act.action == 1 {
            let star = StoreView::rut_star_row(act, star_id, now);
            lemma_distinct_push(s.starruts, same_rut_star(), star);
            lemma_distinct_map(s.ruts, same_rut(), stars_moved_on(act.rut_id@, 1));
        } else {
            lemma_distinct_filter(s.starruts, same_rut_star(), not_rut_star_of(act.uname@, act.rut_id@));
            lemma_distinct_map(s.ruts, same_rut(), stars_moved_on(act.rut_id@, -1));
        }
    }
}

/// Whatever a request to star or unstar a tag is answered with, the store
/// obeys its rules afterwards; so every vote still agrees with its counters.
pub proof fn lemma_tag_star_keeps_rules(
    s: StoreView,
    act: StarOrTag,
    star_id: Seq<char>,
    now: int,
    after: StoreView,
    res: Result<Msg, ServiceError>,
)
    requires
        s.wf(),
        s.tag_star_moved(act, star_id, now, after, res),
    ensures
        after.wf(),
{
    if after != s {
        if act.action == 1 {
            let star = StoreView::tag_star_row(act, star_id, now);
            lemma_distinct_push(s.startags, same_tag_star(), star);
            lemma_tags_changed(s, tag_stars_moved_on(act.tname@, 1));
        } else {
            lemma_distinct_filter(s.startags, same_tag_star(), not_tag_star_of(act.uname@, act.tname@));
            lemma_tags_changed(s, tag_stars_moved_on(act.tname@, -1));
        }
    }
}

/// A request to star or unstar, of a rut or of a tag.
pub enum StarRequest {
    Rut(StarOrRut),
    Tag(StarOrTag),
}

/// Whether the store can go from `before` to `after` by the given request,
/// whatever id and time a new star gets and whatever the answer is.
pub open spec fn star_step(before: StoreView, request: StarRequest, after: StoreView) -> bool {
    match request {
        StarRequest::Rut(act) => exists|star_id: Seq<char>, now: int, res: Result<Msg, ServiceError>| #[trigger]
            before.rut_star_moved(act, star_id, now, after, res),
        StarRequest::Tag(act) => exists|star_id: Seq<char>, now: int, res: Result<Msg, ServiceError>| #[trigger]
            before.tag_star_moved(act, star_id, now, after, res),
    }
}

/// Whether `states` are the states that the store goes through under the
/// given requests, one after the other.
pub open spec fn star_run(states: Seq<StoreView>, requests: Seq<StarRequest>) -> bool {
    &&& states.len() == requests.len() + 1
    &&& forall|k: int| 0 <= k < requests.len() ==> star_step(#[trigger] states[k], requests[k], states[k + 1])
}

/// After any sequence of requests to star and unstar, the store obeys its
/// rules: the vote of every rut and of every tag agrees with its counters.
pub proof fn lemma_votes_after_stars(states: Seq<StoreView>, requests: Seq<StarRequest>, n: int)
    requires
        star_run(states, requests),
        states[0].wf(),
        0 <= n <= requests.len(),
    ensures
        states[n].wf(),
        states[n].votes_settled(),
    decreases n,
{
    if n > 0 {
        lemma_votes_after_stars(states, requests, n - 1);
        let before = states[n - 1];
        let after = states[n];
        assert(star_step(before, requests[n - 1], after));
        match requests[n - 1] {
            StarRequest::Rut(act) => {
                let (star_id, now, res) = choose|star_id: Seq<char>, now: int, res: Result<Msg, ServiceError>| #[trigger]
                    before.rut_star_moved(act, star_id, now, after, res);
                lemma_rut_star_keeps_rules(before, act, star_id, now, after, res);
            },
            StarRequest::Tag(act) => {
                let (star_id, now, res) = choose|star_id: Seq<char>, now: int, res: Result<Msg, ServiceError>| #[trigger]
                    before.tag_star_moved(act, star_id, now, after, res);
                lemma_tag_star_keeps_rules(before, act, star_id, now, after, res);
            },
        }
    }
}

/// The star rows alone say who has starred what: after a request to star a
/// rut that was answered with `"star"`, the user has starred the rut; after
/// one to unstar that was answered with `"unstar"` and status 200, the user
/// has not.
pub proof fn lemma_rut_star_status(
    s: StoreView,
    act: StarOrRut,
    star_id: Seq<char>,
    now: int,
    after: StoreView,
    res: Result<Msg, ServiceError>,
)
    requires
        s.wf(),
        s.rut_star_moved(act, star_id, now, after, res),
    ensures
        replies(res, 200, "star"@) ==> after.rut_starred(act.uname@, act.rut_id@),
        replies(res, 200, "unstar"@) ==> !after.rut_starred(act.uname@, act.rut_id@),
{
    reveal_strlit("star");
    reveal_strlit("unstar");
    assert("star"@ != "unstar"@) by {
        assert("star"@.len() == 4);
        assert("unstar"@.len() == 6);
    }
    let mine = rut_star_of(act.uname@, act.rut_id@);
    if after != s {
        if act.action == 1 {
            assert(mine(after.starruts[s.starruts.len() as int]));
        } else {
            lemma_filter_rows(s.starruts, not_rut_star_of(act.uname@, act.rut_id@));
        }
    }
}

/// The star rows alone say who has starred what: after a request to star a
/// tag that was answered with `"star"`, the user has starred the tag; after
/// one to unstar that was answered with `"unstar"` and status 200, the user
/// has not.
pub proof fn lemma_tag_star_status(
    s: StoreView,
    act: StarOrTag,
    star_id: Seq<char>,
    now: int,
    after: StoreView,
    res: Result<Msg, ServiceError>,
)
    requires
        s.wf(),
        s.tag_star_moved(act, star_id, now, after, res),
    ensures
        replies(res, 200, "star"@) ==> after.tag_starred(act.uname@, act.tname@),
        replies(res, 200, "unstar"@) ==> !after.tag_starred(act.uname@, act.tname@),
{
    reveal_strlit("star");
    reveal_strlit("unstar");
    assert("star"@ != "unstar"@) by {
        assert("star"@.len() == 4);
        assert("unstar"@.len() == 6);
    }
    let mine = tag_star_of(act.uname@, act.tname@);
    if after != s {
        if act.action == 1 {
            assert(mine(after.startags[s.startags.len() as int]));
        } else {
            lemma_filter_rows(s.startags, not_tag_star_of(act.uname@, act.tname@));
        }
    }
}

/// A user who holds as many stars on tags as one user may cannot star a
/// tag, be it one that the user has starred already: the request is
/// answered with status 418, and no star and no counter changes.
pub proof fn lemma_star_at_cap(
    s: StoreView,
    act: StarOrTag,
    star_id: Seq<char>,
    now: int,
    after: StoreView,
    res: Result<Msg, ServiceError>,
)
    requires
        act.action == 1,
        s.at_tag_star_cap(act.uname@),
        s.tag_star_moved(act, star_id, now, after, res),
    ensures
        replies(res, 418, "unstar"@),
        after == s,
        after.tag_stars_held(act.uname@) == s.tag_stars_held(act.uname@),
{
}

/// No request to star or unstar a tag takes a user over the limit: who
/// held no more stars on tags than one user may holds no more afterwards.
pub proof fn lemma_cap_is_kept(
    s: StoreView,
    act: StarOrTag,
    star_id: Seq<char>,
    now: int,
    after: StoreView,
    res: Result<Msg, ServiceError>,
    uname: Seq<char>,
)
    requires
        s.tag_star_moved(act, star_id, now, after, res),
        s.tag_stars_held(uname) <= s.tag_star_cap,
    ensures
        after.tag_stars_held(uname) <= after.tag_star_cap,
        after.tag_star_cap == s.tag_star_cap,
{
    if after != s {
        if act.action == 1 {
            let star = StoreView::tag_star_row(act, star_id, now);
            s.startags.lemma_filter_push(star, tag_star_by(uname));
        } else {
            lemma_filter_twice_len(s.startags, not_tag_star_of(act.uname@, act.tname@), tag_star_by(uname));
        }
    }
}

/// Tagging a rut twice with a tag that it did not have leaves one link
/// between them, and the link has the count 2.
pub proof fn lemma_tag_twice(s: StoreView, tname: Seq<char>, rut_id: Seq<char>)
    requires
        s.wf(),
        !s.linked(tname, rut_id),
    ensures
        ({
            let twice = s.with_link_applied(tname, rut_id).with_link_applied(tname, rut_id);
            &&& twice.wf()
            &&& twice.tagruts.len() == s.tagruts.len() + 1
            &&& twice.linked(tname, rut_id)
            &&& twice.link_of(tname, rut_id).count == 2
            &&& forall|i: int|
                0 <= i < twice.tagruts.len() && (#[trigger] twice.tagruts[i]).joins(tname, rut_id) ==> i
                    == s.tagruts.len()
        }),
{
    let once = s.with_link_applied(tname, rut_id);
    let twice = once.with_link_applied(tname, rut_id);
    let joins = link_joining(tname, rut_id);
    let last = s.tagruts.len() as int;
    lemma_link_applied(s, tname, rut_id);
    lemma_link_applied(once, tname, rut_id);
    assert(joins(once.tagruts[last]));
    assert(joins(twice.tagruts[last]));
    assert forall|i: int| 0 <= i < twice.tagruts.len() && (#[trigger] twice.tagruts[i]).joins(tname, rut_id) implies i
        == last by {
        if i < last {
            assert(once.tagruts[i] == s.tagruts[i]);
            assert(!joins(s.tagruts[i]));
        }
    }
    assert forall|j: int| 0 <= j < last implies !joins(#[trigger] twice.tagruts[j]) by {
        assert(twice.tagruts[j].joins(tname, rut_id) ==> j == last);
    }
    lemma_first_index(twice.tagruts, joins, last);
}

/// Tagging a rut with a tag that it has adds no link: the one link between
/// them counts one more application, and every other link stays as it is.
pub proof fn lemma_tag_again(s: StoreView, tname: Seq<char>, rut_id: Seq<char>)
    requires
        s.wf(),
        s.linked(tname, rut_id),
    ensures
        ({
            let after = s.with_link_applied(tname, rut_id);
            &&& after.wf()
            &&& after.tagruts.len() == s.tagruts.len()
            &&& after.link_of(tname, rut_id).count == s.link_of(tname, rut_id).count + 1
            &&& forall|i: int|
                0 <= i < s.tagruts.len() && !(#[trigger] s.tagruts[i]).joins(tname, rut_id) ==> after.tagruts[i]
                    == s.tagruts[i]
            &&& after.tags == s.tags
        }),
{
    let after = s.with_link_applied(tname, rut_id);
    let joins = link_joining(tname, rut_id);
    lemma_link_applied(s, tname, rut_id);
    let at = choose|i: int| 0 <= i < s.tagruts.len() && joins(#[trigger] s.tagruts[i]);
    assert forall|j: int| 0 <= j < at implies !joins(#[trigger] s.tagruts[j]) by {
        assert(!same_link_rows(s.tagruts[j], s.tagruts[at]));
    }
    lemma_first_index(s.tagruts, joins, at);
    assert forall|j: int| 0 <= j < at implies !joins(#[trigger] after.tagruts[j]) by {
        assert(!joins(s.tagruts[j]));
    }
    assert(joins(after.tagruts[at]));
    lemma_first_index(after.tagruts, joins, at);
}

/// Whether two links join one tag and one rut.
pub open spec fn same_link_rows(a: TagRutView, b: TagRutView) -> bool {
    crate::db::store::same_link()(a, b)
}

/// Untagging removes the link between the tag and the rut as a whole,
/// whatever its count was, and nothing else: every other link stays, and no
/// tag changes.
pub proof fn lemma_untag_removes(s: StoreView, tname: Seq<char>, rut_id: Seq<char>)
    requires
        s.wf(),
    ensures
        ({
            let after = s.without_link(tname, rut_id);
            &&& after.wf()
            &&& !after.linked(tname, rut_id)
            &&& after.tagruts.len() == s.tagruts.len() - (if s.linked(tname, rut_id) { 1int } else { 0int })
            &&& forall|i: int|
                0 <= i < s.tagruts.len() && !(#[trigger] s.tagruts[i]).joins(tname, rut_id)
                    ==> after.tagruts.contains(s.tagruts[i])
            &&& after.tags == s.tags
            &&& after.ruts == s.ruts
        }),
{
    lemma_without_link(s, tname, rut_id);
    lemma_filter_rows(s.tagruts, not_link_joining(tname, rut_id));
    assert forall|i: int| 0 <= i < s.tagruts.len() && !(#[trigger] s.tagruts[i]).joins(tname, rut_id) implies s.without_link(
        tname,
        rut_id,
    ).tagruts.contains(s.tagruts[i]) by {
        assert(not_link_joining(tname, rut_id)(s.tagruts[i]));
    }
}

/// A rut that was submitted with a URL that is not blank stands in the way
/// of every later submission with that URL: the later one is answered with
/// status 422 and the rut of the first, and adds nothing.
pub proof fn lemma_submitted_twice(
    s: StoreView,
    first: CreateRut,
    id: Seq<char>,
    slug: Seq<char>,
    now: int,
    between: StoreView,
    first_res: Result<RutMsg, ServiceError>,
    second: CreateRut,
    second_id: Seq<char>,
    second_slug: Seq<char>,
    later: int,
    after: StoreView,
    second_res: Result<RutMsg, ServiceError>,
)
    requires
        s.submitted(first, id, slug, now, between, first_res),
        first_res matches Ok(msg) && msg.status == 201,
        trimmed(first.url@).len() > 0,
        second.url@ == first.url@,
        between.submitted(second, second_id, second_slug, later, after, second_res),
    ensures
        after == between,
        between.ruts.len() == s.ruts.len() + 1,
        second_res matches Ok(again) && first_res matches Ok(msg) && again.status == 422 && again.rut@ == msg.rut@,
{
    let with_url = rut_with_url(first.url@);
    let last = s.ruts.len() as int;
    assert(!s.url_taken(first.url@));
    assert(with_url(between.ruts[last]));
    assert forall|j: int| 0 <= j < last implies !with_url(#[trigger] between.ruts[j]) by {
        assert(between.ruts[j] == s.ruts[j]);
        assert(!with_url(s.ruts[j]));
    }
    lemma_first_index(between.ruts, with_url, last);
}

/// A listing of the ruts under a tag that has no link is empty and counts
/// nothing, whatever the page.
pub proof fn lemma_no_links_no_ruts(s: StoreView, per: QueryRuts)
    requires
        per matches QueryRuts::TagID(t, _) && forall|i: int|
            0 <= i < s.tagruts.len() ==> (#[trigger] s.tagruts[i]).tname != t@,
    ensures
        s.listed_ids(per).len() == 0,
        s.listed_ruts(per).len() == 0,
        s.listed_count(per) == 0,
{
    match per {
        QueryRuts::TagID(t, p) => {
            let under = link_under(t@);
            assert forall|i: int| 0 <= i < s.tagruts.len() implies !under(#[trigger] s.tagruts[i]) by {}
            lemma_filter_none(s.tagruts, under);
            lemma_ranked_is_sorted(s.tagruts.filter(under), by_link_count());
        },
        _ => {},
    }
}

} // verus!
