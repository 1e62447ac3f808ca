//! The listings of tag names: which rows a listing request takes, in which
//! order, and how many of them.

use vstd::prelude::*;
use crate::db::order::ranked;
use crate::db::select::{arrange_texts, entries_describe, lemma_filter_all, lemma_listed_texts, Window};
use crate::db::listing::by_link_count;
use crate::db::store::{tag_star_by, texts, Store, StoreView};
use crate::model::msg::TagListMsg;
use crate::model::tag::{QueryTags, StarTagView, TagItemView, TagRutView, TagView};
use crate::model::{TAGS_ON_INDEX, TAGS_PER_LIST, TAG_STAR_CAP};

verus! {

/// The links of the given rut to tags.
pub open spec fn link_on(rut_id: Seq<char>) -> spec_fn(TagRutView) -> bool {
    |l: TagRutView| l.rut_id == rut_id
}

/// The links of the given item to tags.
pub open spec fn item_link_on(item_id: Seq<char>) -> spec_fn(TagItemView) -> bool {
    |l: TagItemView| l.item_id == item_id
}

/// The tags whose parent is the given tag.
pub open spec fn tag_child_of(pname: Seq<char>) -> spec_fn(TagView) -> bool {
    |t: TagView| t.pname == pname
}

/// Every tag.
pub open spec fn tag_any() -> spec_fn(TagView) -> bool {
    |t: TagView| true
}

/// Links between tags and items by the number of times they were applied.
pub open spec fn by_item_link_count() -> spec_fn(TagItemView) -> int {
    |l: TagItemView| l.count
}

/// Tags by their vote.
pub open spec fn by_tag_vote() -> spec_fn(TagView) -> int {
    |t: TagView| t.vote
}

/// Stars on tags by the time they were given.
pub open spec fn by_tag_star_time() -> spec_fn(StarTagView) -> int {
    |s: StarTagView| s.star_at
}

/// The tag of a link to a rut.
pub open spec fn link_tag() -> spec_fn(TagRutView) -> Seq<char> {
    |l: TagRutView| l.tname
}

/// The tag of a link to an item.
pub open spec fn item_link_tag() -> spec_fn(TagItemView) -> Seq<char> {
    |l: TagItemView| l.tname
}

/// The name of a tag.
pub open spec fn tag_name() -> spec_fn(TagView) -> Seq<char> {
    |t: TagView| t.tname
}

/// The tag that a star is on.
pub open spec fn tag_star_target() -> spec_fn(StarTagView) -> Seq<char> {
    |s: StarTagView| s.tname
}

impl StoreView {
    /// The tag names that a listing request is answered with: the tags of a
    /// rut or of an item, the link applied most often first, `TAGS_PER_LIST`
    /// at most; the children of a tag, highest vote first, `TAGS_PER_LIST`
    /// at most; the tags that a user starred, latest star first,
    /// `TAG_STAR_CAP` at most; or all tags, highest vote first,
    /// `TAGS_ON_INDEX` at most.
    pub open spec fn listed_tags(self, per: QueryTags) -> Seq<Seq<char>> {
        match per {
            QueryTags::RutID(r) => Window::Top(TAGS_PER_LIST).cut(
                ranked(self.tagruts.filter(link_on(r@)), by_link_count()),
            ).map_values(link_tag()),
            QueryTags::ItemID(i) => Window::Top(TAGS_PER_LIST).cut(
                ranked(self.tagitems.filter(item_link_on(i@)), by_item_link_count()),
            ).map_values(item_link_tag()),
            QueryTags::TagID(t) => Window::Top(TAGS_PER_LIST).cut(
                ranked(self.tags.filter(tag_child_of(t@)), by_tag_vote()),
            ).map_values(tag_name()),
            QueryTags::UserID(u) => Window::Top(TAG_STAR_CAP).cut(
                ranked(self.startags.filter(tag_star_by(u@)), by_tag_star_time()),
            ).map_values(tag_star_target()),
            QueryTags::Index(_) => Window::Top(TAGS_ON_INDEX).cut(ranked(self.tags, by_tag_vote())).map_values(
                tag_name(),
            ),
        }
    }
}

impl Store {
    /// The names of the tags of the rut, the link applied most often first,
    /// cut to `window`, and the number of links of the rut.
    pub(crate) fn list_tags_of_rut(&self, rut_id: &String, window: Window) -> (found: (Vec<String>, usize))
        ensures
            texts(found.0@) == window.cut(ranked(self@.tagruts.filter(link_on(rut_id@)), by_link_count())).map_values(link_tag()),
            found.1 == self@.tagruts.filter(link_on(rut_id@)).len(),
    {
        let mut entries: Vec<(Option<i64>, String)> = Vec::new();
        let mut i: usize = 0;
        while i < self.tagruts.len()
            invariant
                i <= self.tagruts.len(),
                entries.len() == i,
                forall|j: int|
                    0 <= j < i ==> (#[trigger] entries[j]).0 == (if link_on(rut_id@)(self@.tagruts[j]) {
                        Some(by_link_count()(self@.tagruts[j]) as i64)
                    } else {
                        None
                    }),
                forall|j: int|
                    0 <= j < i && link_on(rut_id@)(self@.tagruts[j]) ==> (#[trigger] entries[j]).1@ == link_tag()(
                        self@.tagruts[j],
                    ),
            decreases self.tagruts.len() - i,
        {
            let row = &self.tagruts[i];
            let entry = if row.rut_id == *rut_id {
                (Some(row.count as i64), row.tname.clone())
            } else {
                (None, String::new())
            };
            entries.push(entry);
            i = i + 1;
        }
        proof {
            assert(entries_describe(entries@, self@.tagruts, link_on(rut_id@), by_link_count(), link_tag()));
            lemma_listed_texts(entries@, window, self@.tagruts, link_on(rut_id@), by_link_count(), link_tag());
        }
        arrange_texts(&entries, window)
    }

    /// The names of the tags of the item, the link applied most often first,
    /// cut to `window`, and the number of links of the item.
    pub(crate) fn list_tags_of_item(&self, item_id: &String, window: Window) -> (found: (Vec<String>, usize))
        ensures
            texts(found.0@) == window.cut(ranked(self@.tagitems.filter(item_link_on(item_id@)), by_item_link_count())).map_values(item_link_tag()),
            found.1 == self@.tagitems.filter(item_link_on(item_id@)).len(),
    {
        let mut entries: Vec<(Option<i64>, String)> = Vec::new();
        let mut i: usize = 0;
        while i < self.tagitems.len()
            invariant
                i <= self.tagitems.len(),
                entries.len() == i,
                forall|j: int|
                    0 <= j < i ==> (#[trigger] entries[j]).0 == (if item_link_on(item_id@)(self@.tagitems[j]) {
                        Some(by_item_link_count()(self@.tagitems[j]) as i64)
                    } else {
                        None
                    }),
                forall|j: int|
                    0 <= j < i && item_link_on(item_id@)(self@.tagitems[j]) ==> (#[trigger] entries[j]).1@ == item_link_tag()(
                        self@.tagitems[j],
                    ),
            decreases self.tagitems.len() - i,
        {
            let row = &self.tagitems[i];
            let entry = if row.item_id == *item_id {
                (Some(row.count as i64), row.tname.clone())
            } else {
                (None, String::new())
            };
            entries.push(entry);
            i = i + 1;
        }
        proof {
            assert(entries_describe(entries@, self@.tagitems, item_link_on(item_id@), by_item_link_count(), item_link_tag()));
            lemma_listed_texts(entries@, window, self@.tagitems, item_link_on(item_id@), by_item_link_count(), item_link_tag());
        }
        arrange_texts(&entries, window)
    }

    /// The names of the tags whose parent is the given tag, highest vote
    /// first, cut to `window`, and the number of such tags.
    pub(crate) fn list_child_tags(&self, pname: &String, window: Window) -> (found: (Vec<String>, usize))
        ensures
            texts(found.0@) == window.cut(ranked(self@.tags.filter(tag_child_of(pname@)), by_tag_vote())).map_values(tag_name()),
            found.1 == self@.tags.filter(tag_child_of(pname@)).len(),
    {
        let mut entries: Vec<(Option<i64>, String)> = Vec::new();
        let mut i: usize = 0;
        while i < self.tags.len()
            invariant
                i <= self.tags.len(),
                entries.len() == i,
                forall|j: int|
                    0 <= j < i ==> (#[trigger] entries[j]).0 == (if tag_child_of(pname@)(self@.tags[j]) {
                        Some(by_tag_vote()(self@.tags[j]) as i64)
                    } else {
                        None
                    }),
                forall|j: int|
                    0 <= j < i && tag_child_of(pname@)(self@.tags[j]) ==> (#[trigger] entries[j]).1@ == tag_name()(
                        self@.tags[j],
                    ),
            decreases self.tags.len() - i,
        {
            let row = &self.tags[i];
            let entry = if row.pname == *pname {
                (Some(row.vote as i64), row.tname.clone())
            } else {
                (None, String::new())
            };
            entries.push(entry);
            i = i + 1;
        }
        proof {
            assert(entries_describe(entries@, self@.tags, tag_child_of(pname@), by_tag_vote(), tag_name()));
            lemma_listed_texts(entries@, window, self@.tags, tag_child_of(pname@), by_tag_vote(), tag_name());
        }
        arrange_texts(&entries, window)
    }

    /// The names of the tags that the user starred, latest star first, cut to
    /// `window`, and the number of stars of the user.
    pub(crate) fn list_starred_tags(&self, uname: &String, window: Window) -> (found: (Vec<String>, usize))
        ensures
            texts(found.0@) == window.cut(ranked(self@.startags.filter(tag_star_by(uname@)), by_tag_star_time())).map_values(tag_star_target()),
            found.1 == self@.startags.filter(tag_star_by(uname@)).len(),
    {
        let mut entries: Vec<(Option<i64>, String)> = Vec::new();
        let mut i: usize = 0;
        while i < self.startags.len()
            invariant
                i <= self.startags.len(),
                entries.len() == i,
                forall|j: int|
                    0 <= j < i ==> (#[trigger] entries[j]).0 == (if tag_star_by(uname@)(self@.startags[j]) {
                        Some(by_tag_star_time()(self@.startags[j]) as i64)
                    } else {
                        None
                    }),
                forall|j: int|
                    0 <= j < i && tag_star_by(uname@)(self@.startags[j]) ==> (#[trigger] entries[j]).1@ == tag_star_target()(
                        self@.startags[j],
                    ),
            decreases self.startags.len() - i,
        {
            let row = &self.startags[i];
            let entry = if row.uname == *uname {
                (Some(row.star_at), row.tname.clone())
            } else {
                (None, String::new())
            };
            entries.push(entry);
            i = i + 1;
        }
        proof {
            assert(entries_describe(entries@, self@.startags, tag_star_by(uname@), by_tag_star_time(), tag_star_target()));
            lemma_listed_texts(entries@, window, self@.startags, tag_star_by(uname@), by_tag_star_time(), tag_star_target());
        }
        arrange_texts(&entries, window)
    }

    /// The names of all tags, highest vote first, cut to `window`, and the
    /// number of tags.
    pub(crate) fn list_all_tags(&self, window: Window) -> (found: (Vec<String>, usize))
        ensures
            texts(found.0@) == window.cut(ranked(self@.tags.filter(tag_any()), by_tag_vote())).map_values(tag_name()),
            found.1 == self@.tags.filter(tag_any()).len(),
    {
        let mut entries: Vec<(Option<i64>, String)> = Vec::new();
        let mut i: usize = 0;
        while i < self.tags.len()
            invariant
                i <= self.tags.len(),
                entries.len() == i,
                forall|j: int|
                    0 <= j < i ==> (#[trigger] entries[j]).0 == (if tag_any()(self@.tags[j]) {
                        Some(by_tag_vote()(self@.tags[j]) as i64)
                    } else {
                        None
                    }),
                forall|j: int|
                    0 <= j < i && tag_any()(self@.tags[j]) ==> (#[trigger] entries[j]).1@ == tag_name()(
                        self@.tags[j],
                    ),
            decreases self.tags.len() - i,
        {
            let row = &self.tags[i];
            let entry = if true {
                (Some(row.vote as i64), row.tname.clone())
            } else {
                (None, String::new())
            };
            entries.push(entry);
            i = i + 1;
        }
        proof {
            assert(entries_describe(entries@, self@.tags, tag_any(), by_tag_vote(), tag_name()));
            lemma_listed_texts(entries@, window, self@.tags, tag_any(), by_tag_vote(), tag_name());
        }
        arrange_texts(&entries, window)
    }

    /// Answers a request for a list of tag names. The answer holds the names
    /// of the listing and their number.
    pub fn query_tags(&self, per: &QueryTags) -> (msg: TagListMsg)
        ensures
            msg.status == 200,
            msg.message@ == "Success"@,
            texts(msg.tags@) == self@.listed_tags(*per),
            msg.count == msg.tags.len(),
    {
        let (tags, _) = match per {
            QueryTags::RutID(r) => self.list_tags_of_rut(r, Window::Top(TAGS_PER_LIST)),
            QueryTags::ItemID(i) => self.list_tags_of_item(i, Window::Top(TAGS_PER_LIST)),
            QueryTags::TagID(t) => self.list_child_tags(t, Window::Top(TAGS_PER_LIST)),
            QueryTags::UserID(u) => self.list_starred_tags(u, Window::Top(TAG_STAR_CAP)),
            QueryTags::Index(_) => {
                proof {
                    lemma_filter_all(self@.tags, tag_any());
                }
                self.list_all_tags(Window::Top(TAGS_ON_INDEX))
            },
        };
        let count = tags.len();
        TagListMsg { status: 200, message: "Success".to_owned(), tags, count }
    }
}

} // verus!
