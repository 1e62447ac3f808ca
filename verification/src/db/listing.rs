//! The listings of ruts: which rows a listing request takes, in which order,
//! and how the ids listed from stars and links resolve to ruts.

use vstd::prelude::*;
use crate::db::order::{positions_of, ranked};
use crate::db::select::{
    arrange, arrange_texts, entries_describe, flags_describe, flags_of, lemma_cut_map, lemma_filter_all, lemma_first_index, lemma_listed_texts, lemma_listing_rows, listing, Window,
};
use crate::db::store::{rows, texts, Store, StoreView};
use crate::model::msg::RutListMsg;
use crate::model::rut::{CollectView, QueryRuts, Rut, RutView, StarRutView};
use crate::model::tag::TagRutView;
use crate::model::PER_PAGE;
use crate::text::{same_text, title_has, title_matches, trim, trimmed};

verus! {

/// The ruts that the given user submitted.
pub open spec fn rut_of_user(uname: Seq<char>) -> spec_fn(RutView) -> bool {
    |r: RutView| r.uname == uname
}

/// The ruts whose id is in the given list.
pub open spec fn rut_among(ids: Seq<Seq<char>>) -> spec_fn(RutView) -> bool {
    |r: RutView| ids.contains(r.id)
}

/// Every rut.
pub open spec fn rut_any() -> spec_fn(RutView) -> bool {
    |r: RutView| true
}

/// The stars that the given user gave to ruts.
pub open spec fn rut_star_by(uname: Seq<char>) -> spec_fn(StarRutView) -> bool {
    |s: StarRutView| s.uname == uname
}

/// The links that put the given item into a rut.
pub open spec fn collect_of(item_id: Seq<char>) -> spec_fn(CollectView) -> bool {
    |c: CollectView| c.item_id == item_id
}

/// The links of the given tag to ruts.
pub open spec fn link_under(tname: Seq<char>) -> spec_fn(TagRutView) -> bool {
    |l: TagRutView| l.tname == tname
}

/// Ruts by the time of their last edit.
pub open spec fn by_renewal() -> spec_fn(RutView) -> int {
    |r: RutView| r.renew_at
}

/// Ruts by the time of their submission.
pub open spec fn by_creation() -> spec_fn(RutView) -> int {
    |r: RutView| r.create_at
}

/// Stars on ruts by the time they were given.
pub open spec fn by_rut_star_time() -> spec_fn(StarRutView) -> int {
    |s: StarRutView| s.star_at
}

/// Links between items and ruts by the time they were made.
pub open spec fn by_collect_time() -> spec_fn(CollectView) -> int {
    |c: CollectView| c.collect_at
}

/// Links between tags and ruts by the number of times they were applied.
pub open spec fn by_link_count() -> spec_fn(TagRutView) -> int {
    |l: TagRutView| l.count
}

/// The rut that a star is on.
pub open spec fn rut_star_target() -> spec_fn(StarRutView) -> Seq<char> {
    |s: StarRutView| s.rut_id
}

/// The rut that an item was put into.
pub open spec fn collect_target() -> spec_fn(CollectView) -> Seq<char> {
    |c: CollectView| c.rut_id
}

/// The rut that a tag is linked to.
pub open spec fn link_target() -> spec_fn(TagRutView) -> Seq<char> {
    |l: TagRutView| l.rut_id
}

/// The window of the listings that have a fixed limit and no pages.
pub open spec fn front() -> Window {
    Window::Top(PER_PAGE as usize)
}

impl StoreView {
    /// The ruts that a keyword search looks at: those whose title has the
    /// keyword and that lie in the scope. The scope `"user"` holds the ruts
    /// that the user `id` submitted, `"tag"` the ruts linked to the tag `id`,
    /// `"item"` the ruts that collect the item `id`; any other scope holds
    /// every rut.
    pub open spec fn keyword_scope(self, keyword: Seq<char>, scope: Seq<char>, id: Seq<char>) -> spec_fn(
        RutView,
    ) -> bool {
        if scope == "user"@ {
            |r: RutView| r.uname == id && title_has(r.title, keyword)
        } else if scope == "tag"@ {
            |r: RutView| title_has(r.title, keyword) && self.linked(id, r.id)
        } else if scope == "item"@ {
            |r: RutView| title_has(r.title, keyword) && self.collected(id, r.id)
        } else {
            |r: RutView| title_has(r.title, keyword)
        }
    }

    /// The ids on a page of the ruts that the user starred, latest star
    /// first.
    pub open spec fn starred_ids(self, uname: Seq<char>, page: i32) -> Seq<Seq<char>> {
        Window::Page(page).cut(ranked(self.starruts.filter(rut_star_by(uname)), by_rut_star_time())).map_values(
            rut_star_target(),
        )
    }

    /// The ids on a page of the ruts that collect the item, latest link
    /// first.
    pub open spec fn collecting_ids(self, item_id: Seq<char>, page: i32) -> Seq<Seq<char>> {
        Window::Page(page).cut(ranked(self.collects.filter(collect_of(item_id)), by_collect_time())).map_values(
            collect_target(),
        )
    }

    /// The ids on a page of the ruts under the tag, the link applied most
    /// often first.
    pub open spec fn tagged_ids(self, tname: Seq<char>, page: i32) -> Seq<Seq<char>> {
        Window::Page(page).cut(ranked(self.tagruts.filter(link_under(tname)), by_link_count())).map_values(
            link_target(),
        )
    }

    /// The ruts whose id is in `ids`, in the order of the table. With no id
    /// the table is not read.
    pub open spec fn resolved(self, ids: Seq<Seq<char>>) -> Seq<RutView> {
        if ids.len() > 0 {
            self.ruts.filter(rut_among(ids))
        } else {
            Seq::empty()
        }
    }

    /// The ruts that a listing request reads from the table of ruts itself:
    /// the global index, latest edit first; the ruts that a user submitted,
    /// latest submission first, by page; the ruts of a keyword search,
    /// latest submission first. The other requests read none.
    pub open spec fn direct_ruts(self, per: QueryRuts) -> Seq<RutView> {
        match per {
            QueryRuts::Index(_) => front().cut(ranked(self.ruts, by_renewal())),
            QueryRuts::UserID(u, f, p) => if f@ == "create"@ {
                Window::Page(p).cut(ranked(self.ruts.filter(rut_of_user(u@)), by_creation()))
            } else {
                Seq::empty()
            },
            QueryRuts::KeyID(k, f, i, _) => front().cut(
                ranked(self.ruts.filter(self.keyword_scope(k@, trimmed(f@), i@)), by_creation()),
            ),
            _ => Seq::empty(),
        }
    }

    /// The ids that a listing request reads from a table of links or stars:
    /// the ruts that a user starred, that collect an item, or that stand
    /// under a tag, by page. The other requests read none.
    pub open spec fn listed_ids(self, per: QueryRuts) -> Seq<Seq<char>> {
        match per {
            QueryRuts::UserID(u, f, p) => if f@ == "create"@ {
                Seq::empty()
            } else {
                self.starred_ids(u@, p)
            },
            QueryRuts::ItemID(i, p) => self.collecting_ids(i@, p),
            QueryRuts::TagID(t, p) => self.tagged_ids(t@, p),
            _ => Seq::empty(),
        }
    }

    /// The ruts that a listing request is answered with: those read from the
    /// table of ruts itself, followed by those that the listed ids resolve
    /// to.
    pub open spec fn listed_ruts(self, per: QueryRuts) -> Seq<RutView> {
        self.direct_ruts(per) + self.resolved(self.listed_ids(per))
    }

    /// The number that a listing request is answered with: for a paged
    /// listing the number of rows that match, whatever the page; for a
    /// listing with a fixed limit, zero.
    pub open spec fn listed_count(self, per: QueryRuts) -> nat {
        match per {
            QueryRuts::Index(_) => 0,
            QueryRuts::UserID(u, f, _) => if f@ == "create"@ {
                self.ruts.filter(rut_of_user(u@)).len()
            } else {
                self.starruts.filter(rut_star_by(u@)).len()
            },
            QueryRuts::ItemID(i, _) => self.collects.filter(collect_of(i@)).len(),
            QueryRuts::TagID(t, _) => self.tagruts.filter(link_under(t@)).len(),
            QueryRuts::KeyID(_, _, _, _) => 0,
        }
    }
}

/// Which ruts a listing takes.
pub(crate) enum RutPick<'a> {
    Any,
    OfUser(&'a String),
    /// Keyword, scope, id of the scope.
    Keyword(&'a String, &'a str, &'a String),
}

impl<'a> RutPick<'a> {
    pub(crate) open spec fn accepts(self, store: StoreView) -> spec_fn(RutView) -> bool {
        match self {
            RutPick::Any => rut_any(),
            RutPick::OfUser(u) => rut_of_user(u@),
            RutPick::Keyword(k, scope, id) => store.keyword_scope(k@, scope@, id@),
        }
    }
}

/// By which time a listing of ruts is ranked.
#[derive(Clone, Copy)]
pub(crate) enum RutKey {
    Renewal,
    Creation,
}

impl RutKey {
    pub(crate) open spec fn of(self) -> spec_fn(RutView) -> int {
        match self {
            RutKey::Renewal => by_renewal(),
            RutKey::Creation => by_creation(),
        }
    }
}

/// Whether a list of strings holds the given one.
pub(crate) fn holds_text(list: &Vec<String>, text: &String) -> (found: bool)
    ensures
        found == texts(list@).contains(text@),
{
    let mut i: usize = 0;
    while i < list.len()
        invariant
            i <= list.len(),
            forall|j: int| 0 <= j < i ==> texts(list@)[j] != text@,
        decreases list.len() - i,
    {
        if list[i] == *text {
            assert(texts(list@)[i as int] == text@);
            return true;
        }
        i = i + 1;
    }
    false
}

impl Store {
    /// Whether a listing takes the given rut.
    fn takes(&self, pick: &RutPick, rut: &Rut) -> (taken: bool)
        ensures
            taken == pick.accepts(self@)(rut@),
    {
        match pick {
            RutPick::Any => true,
            RutPick::OfUser(u) => rut.uname == **u,
            RutPick::Keyword(k, scope, id) => {
                if same_text(scope, "user") {
                    rut.uname == **id && title_matches(rut.title.as_str(), k.as_str())
                } else if same_text(scope, "tag") {
                    let at = self.find_link(id, &rut.id);
                    proof {
                        lemma_first_index(self@.tagruts, crate::db::store::link_joining(id@, rut.id@), at as int);
                    }
                    title_matches(rut.title.as_str(), k.as_str()) && at < self.tagruts.len()
                } else if same_text(scope, "item") {
                    let at = self.find_collect(id, &rut.id);
                    proof {
                        lemma_first_index(
                            self@.collects,
                            crate::db::store::collect_joining(id@, rut.id@),
                            at as int,
                        );
                    }
                    title_matches(rut.title.as_str(), k.as_str()) && at < self.collects.len()
                } else {
                    title_matches(rut.title.as_str(), k.as_str())
                }
            },
        }
    }

    /// The ruts that `pick` takes, ranked by `key` and cut to `window`, and
    /// the number of ruts that `pick` takes.
    pub(crate) fn list_ruts(&self, pick: &RutPick, key: RutKey, window: Window) -> (found: (Vec<Rut>, usize))
        ensures
            rows(found.0@) == window.cut(ranked(self@.ruts.filter(pick.accepts(self@)), key.of())),
            found.1 == self@.ruts.filter(pick.accepts(self@)).len(),
    {
        let mut flags: Vec<Option<i64>> = Vec::new();
        let mut i: usize = 0;
        while i < self.ruts.len()
            invariant
                i <= self.ruts.len(),
                flags.len() == i,
                forall|j: int|
                    0 <= j < i ==> #[trigger] flags_of(flags@)[j] == (if pick.accepts(self@)(self@.ruts[j]) {
                        Some(key.of()(self@.ruts[j]))
                    } else {
                        None
                    }),
            decreases self.ruts.len() - i,
        {
            let flag = if self.takes(pick, &self.ruts[i]) {
                match key {
                    RutKey::Renewal => Some(self.ruts[i].renew_at),
                    RutKey::Creation => Some(self.ruts[i].create_at),
                }
            } else {
                None
            };
            let ghost before = flags@;
            flags.push(flag);
            proof {
                assert forall|j: int| 0 <= j <= i implies #[trigger] flags_of(flags@)[j] == (if pick.accepts(
                    self@,
                )(self@.ruts[j]) {
                    Some(key.of()(self@.ruts[j]))
                } else {
                    None
                }) by {
                    if j < i {
                        assert(flags_of(flags@)[j] == flags_of(before)[j]);
                    }
                }
            }
            i = i + 1;
        }
        let (at, total) = arrange(&flags, window);
        let mut out: Vec<Rut> = Vec::new();
        let mut j: usize = 0;
        while j < at.len()
            invariant
                j <= at.len(),
                flags.len() == self.ruts.len(),
                forall|k: int| 0 <= k < at.len() ==> #[trigger] at[k] < flags.len(),
                rows(out@) =~= positions_of(at@).take(j as int).map_values(|i: int| self@.ruts[i]),
            decreases at.len() - j,
        {
            let ghost before = out@;
            out.push(self.ruts[at[j]].clone());
            proof {
                assert(rows(out@) =~= rows(before).push(self@.ruts[at[j as int] as int]));
                assert(positions_of(at@).take(j + 1) =~= positions_of(at@).take(j as int).push(
                    at[j as int] as int,
                ));
            }
            j = j + 1;
        }
        proof {
            assert(positions_of(at@).take(at.len() as int) =~= positions_of(at@));
            assert(flags_describe(flags_of(flags@), self@.ruts, pick.accepts(self@), key.of()));
            lemma_listing_rows(flags_of(flags@), self@.ruts, pick.accepts(self@), key.of());
            lemma_cut_map(window, listing(flags_of(flags@)), |i: int| self@.ruts[i]);
        }
        (out, total)
    }

    /// The ruts whose id is in `ids`, in the order of the table.
    pub fn ruts_among(&self, ids: &Vec<String>) -> (found: Vec<Rut>)
        ensures
            rows(found@) == self@.ruts.filter(rut_among(texts(ids@))),
    {
        let mut out: Vec<Rut> = Vec::new();
        let mut i: usize = 0;
        assert(self@.ruts.take(0).filter(rut_among(texts(ids@))) =~= Seq::<RutView>::empty()) by {
            reveal(Seq::filter);
        }
        while i < self.ruts.len()
            invariant
                i <= self.ruts.len(),
                rows(out@) =~= self@.ruts.take(i as int).filter(rut_among(texts(ids@))),
            decreases self.ruts.len() - i,
        {
            let ghost before = out@;
            proof {
                assert(self@.ruts.take(i + 1) =~= self@.ruts.take(i as int).push(self@.ruts[i as int]));
                self@.ruts.take(i as int).lemma_filter_push(self@.ruts[i as int], rut_among(texts(ids@)));
            }
            if holds_text(ids, &self.ruts[i].id) {
                out.push(self.ruts[i].clone());
                assert(rows(out@) =~= rows(before).push(self@.ruts[i as int]));
            }
            i = i + 1;
        }
        assert(self@.ruts.take(self.ruts.len() as int) =~= self@.ruts);
        out
    }
    /// The ids of the ruts that the user starred, latest star first, cut to
    /// `window`, and the number of stars of the user.
    pub(crate) fn list_starred_ids(&self, uname: &String, window: Window) -> (found: (Vec<String>, usize))
        ensures
            texts(found.0@) == window.cut(
                ranked(self@.starruts.filter(rut_star_by(uname@)), by_rut_star_time()),
            ).map_values(rut_star_target()),
            found.1 == self@.starruts.filter(rut_star_by(uname@)).len(),
    {
        let mut entries: Vec<(Option<i64>, String)> = Vec::new();
        let mut i: usize = 0;
        while i < self.starruts.len()
            invariant
                i <= self.starruts.len(),
                entries.len() == i,
                forall|j: int|
                    0 <= j < i ==> (#[trigger] entries[j]).0 == (if rut_star_by(uname@)(self@.starruts[j]) {
                        Some(by_rut_star_time()(self@.starruts[j]) as i64)
                    } else {
                        None
                    }),
                forall|j: int|
                    0 <= j < i && rut_star_by(uname@)(self@.starruts[j]) ==> (#[trigger] entries[j]).1@
                        == rut_star_target()(self@.starruts[j]),
            decreases self.starruts.len() - i,
        {
            let row = &self.starruts[i];
            let entry = if row.uname == *uname {
                (Some(row.star_at), row.rut_id.clone())
            } else {
                (None, String::new())
            };
            entries.push(entry);
            i = i + 1;
        }
        proof {
            assert(entries_describe(
                entries@,
                self@.starruts,
                rut_star_by(uname@),
                by_rut_star_time(),
                rut_star_target(),
            ));
            lemma_listed_texts(
                entries@,
                window,
                self@.starruts,
                rut_star_by(uname@),
                by_rut_star_time(),
                rut_star_target(),
            );
        }
        arrange_texts(&entries, window)
    }

    /// The ids of the ruts that collect the item, latest link first, cut to
    /// `window`, and the number of such links.
    pub(crate) fn list_collecting_ids(&self, item_id: &String, window: Window) -> (found: (Vec<String>, usize))
        ensures
            texts(found.0@) == window.cut(
                ranked(self@.collects.filter(collect_of(item_id@)), by_collect_time()),
            ).map_values(collect_target()),
            found.1 == self@.collects.filter(collect_of(item_id@)).len(),
    {
        let mut entries: Vec<(Option<i64>, String)> = Vec::new();
        let mut i: usize = 0;
        while i < self.collects.len()
            invariant
                i <= self.collects.len(),
                entries.len() == i,
                forall|j: int|
                    0 <= j < i ==> (#[trigger] entries[j]).0 == (if collect_of(item_id@)(self@.collects[j]) {
                        Some(by_collect_time()(self@.collects[j]) as i64)
                    } else {
                        None
                    }),
                forall|j: int|
                    0 <= j < i && collect_of(item_id@)(self@.collects[j]) ==> (#[trigger] entries[j]).1@
                        == collect_target()(self@.collects[j]),
            decreases self.collects.len() - i,
        {
            let row = &self.collects[i];
            let entry = if row.item_id == *item_id {
                (Some(row.collect_at), row.rut_id.clone())
            } else {
                (None, String::new())
            };
            entries.push(entry);
            i = i + 1;
        }
        proof {
            assert(entries_describe(
                entries@,
                self@.collects,
                collect_of(item_id@),
                by_collect_time(),
                collect_target(),
            ));
            lemma_listed_texts(
                entries@,
                window,
                self@.collects,
                collect_of(item_id@),
                by_collect_time(),
                collect_target(),
            );
        }
        arrange_texts(&entries, window)
    }

    /// The ids of the ruts under the tag, the link applied most often first,
    /// cut to `window`, and the number of links of the tag.
    pub(crate) fn list_tagged_ids(&self, tname: &String, window: Window) -> (found: (Vec<String>, usize))
        ensures
            texts(found.0@) == window.cut(
                ranked(self@.tagruts.filter(link_under(tname@)), by_link_count()),
            ).map_values(link_target()),
            found.1 == self@.tagruts.filter(link_under(tname@)).len(),
    {
        let mut entries: Vec<(Option<i64>, String)> = Vec::new();
        let mut i: usize = 0;
        while i < self.tagruts.len()
            invariant
                i <= self.tagruts.len(),
                entries.len() == i,
                forall|j: int|
                    0 <= j < i ==> (#[trigger] entries[j]).0 == (if link_under(tname@)(self@.tagruts[j]) {
                        Some(by_link_count()(self@.tagruts[j]) as i64)
                    } else {
                        None
                    }),
                forall|j: int|
                    0 <= j < i && link_under(tname@)(self@.tagruts[j]) ==> (#[trigger] entries[j]).1@
                        == link_target()(self@.tagruts[j]),
            decreases self.tagruts.len() - i,
        {
            let row = &self.tagruts[i];
            let entry = if row.tname == *tname {
                (Some(row.count as i64), row.rut_id.clone())
            } else {
                (None, String::new())
            };
            entries.push(entry);
            i = i + 1;
        }
        proof {
            assert(entries_describe(
                entries@,
                self@.tagruts,
                link_under(tname@),
                by_link_count(),
                link_target(),
            ));
            lemma_listed_texts(
                entries@,
                window,
                self@.tagruts,
                link_under(tname@),
                by_link_count(),
                link_target(),
            );
        }
        arrange_texts(&entries, window)
    }

    /// Answers a listing request. The request names one of the listing
    /// intents; the answer holds the ruts of the listing, and for a paged
    /// listing the number of rows that match before the page is cut.
    ///
    /// A listing by user (starred), by item or by tag first lists the ids of
    /// the ruts from the stars or links, in rank order and by page, and then
    /// takes the ruts with those ids from the table of ruts, in the order of
    /// that table; with no id, the table of ruts is not read.
    pub fn query_ruts(&self, per: &QueryRuts) -> (msg: RutListMsg)
        ensures
            msg.status == 201,
            msg.message@ == "Success"@,
            rows(msg.ruts@) == self@.listed_ruts(*per),
            msg.count == self@.listed_count(*per),
    {
        let mut ids: Vec<String> = Vec::new();
        let mut ruts: Vec<Rut> = Vec::new();
        let mut count: usize = 0;
        match per {
            QueryRuts::Index(_) => {
                let (list, _) = self.list_ruts(&RutPick::Any, RutKey::Renewal, Window::Top(PER_PAGE as usize));
                proof {
                    lemma_filter_all(self@.ruts, rut_any());
                }
                ruts = list;
            },
            QueryRuts::UserID(u, f, p) => {
                if same_text(f.as_str(), "create") {
                    let (list, total) = self.list_ruts(&RutPick::OfUser(u), RutKey::Creation, Window::Page(*p));
                    ruts = list;
                    count = total;
                } else {
                    let (list, total) = self.list_starred_ids(u, Window::Page(*p));
                    ids = list;
                    count = total;
                }
            },
            QueryRuts::ItemID(i, p) => {
                let (list, total) = self.list_collecting_ids(i, Window::Page(*p));
                ids = list;
                count = total;
            },
            QueryRuts::TagID(t, p) => {
                let (list, total) = self.list_tagged_ids(t, Window::Page(*p));
                ids = list;
                count = total;
            },
            QueryRuts::KeyID(k, f, i, _) => {
                let scope = trim(f.as_str());
                let (list, _) = self.list_ruts(
                    &RutPick::Keyword(k, scope, i),
                    RutKey::Creation,
                    Window::Top(PER_PAGE as usize),
                );
                ruts = list;
            },
        }
        assert(rows(ruts@) == self@.direct_ruts(*per));
        assert(texts(ids@) == self@.listed_ids(*per));
        if ids.len() > 0 {
            let ghost direct = ruts@;
            let mut more = self.ruts_among(&ids);
            let ghost fetched = more@;
            ruts.append(&mut more);
            assert(rows(ruts@) =~= rows(direct) + rows(fetched));
        } else {
            assert(rows(ruts@) =~= rows(ruts@) + Seq::<RutView>::empty());
        }
        RutListMsg { status: 201, message: "Success".to_owned(), ruts, count }
    }
}

} // verus!
