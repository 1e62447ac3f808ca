//! Making a store from tables that come from elsewhere: the tables are
//! taken only where they obey the rules of the store.

use vstd::prelude::*;
use crate::db::select::distinct_by;
use crate::db::store::{
    rows, same_item_link, same_link, same_rut, same_rut_star, same_tag, same_tag_star, tag_named, Store, StoreView,
};
use crate::model::rut::{Collect, Rut, StarRut};
use crate::model::tag::{StarTag, Tag, TagItem, TagRut};
use crate::rank::{checked_rut_vote, checked_tag_vote};

verus! {

/// The mathematical values of a list of pairs of strings.
pub open spec fn pair_texts(keys: Seq<(String, String)>) -> Seq<(Seq<char>, Seq<char>)> {
    keys.map_values(|k: (String, String)| (k.0@, k.1@))
}

/// Whether no pair stands twice in the list.
pub open spec fn pairs_distinct(keys: Seq<(Seq<char>, Seq<char>)>) -> bool {
    forall|i: int, j: int| 0 <= i < j < keys.len() ==> #[trigger] keys[i] != #[trigger] keys[j]
}

/// Decides whether no pair stands twice in the list.
pub fn no_pair_twice(keys: &Vec<(String, String)>) -> (distinct: bool)
    ensures
        distinct == pairs_distinct(pair_texts(keys@)),
{
    let ghost views = pair_texts(keys@);
    let mut j: usize = 0;
    while j < keys.len()
        invariant
            j <= keys.len(),
            views == pair_texts(keys@),
            forall|a: int, b: int| 0 <= a < b < j ==> #[trigger] views[a] != #[trigger] views[b],
        decreases keys.len() - j,
    {
        let mut i: usize = 0;
        while i < j
            invariant
                i <= j < keys.len(),
                views == pair_texts(keys@),
                forall|a: int| 0 <= a < i ==> #[trigger] views[a] != views[j as int],
            decreases j - i,
        {
            if keys[i].0 == keys[j].0 && keys[i].1 == keys[j].1 {
                assert(views[i as int] == views[j as int]);
                return false;
            }
            assert(views[i as int] != views[j as int]);
            i = i + 1;
        }
        j = j + 1;
    }
    true
}

/// The tables of a store, as they come from elsewhere.
#[derive(Debug)]
pub struct Tables {
    pub ruts: Vec<Rut>,
    pub tags: Vec<Tag>,
    pub tagruts: Vec<TagRut>,
    pub tagitems: Vec<TagItem>,
    pub starruts: Vec<StarRut>,
    pub startags: Vec<StarTag>,
    pub collects: Vec<Collect>,
    /// How many tags one user may have starred at a time.
    pub tag_star_cap: usize,
}

impl View for Tables {
    type V = StoreView;

    open spec fn view(&self) -> StoreView {
        StoreView {
            ruts: rows(self.ruts@),
            tags: rows(self.tags@),
            tagruts: rows(self.tagruts@),
            tagitems: rows(self.tagitems@),
            starruts: rows(self.starruts@),
            startags: rows(self.startags@),
            collects: rows(self.collects@),
            tag_star_cap: self.tag_star_cap as nat,
        }
    }
}

impl Tables {
    /// Whether the ruts differ in their ids.
    fn ruts_distinct(&self) -> (distinct: bool)
        ensures
            distinct == distinct_by(self@.ruts, same_rut()),
    {
        let mut keys: Vec<(String, String)> = Vec::new();
        let mut i: usize = 0;
        while i < self.ruts.len()
            invariant
                i <= self.ruts.len(),
                keys.len() == i,
                forall|j: int| 0 <= j < i ==> #[trigger] pair_texts(keys@)[j] == (self@.ruts[j].id, Seq::<char>::empty()),
            decreases self.ruts.len() - i,
        {
            let ghost before = keys@;
            keys.push((self.ruts[i].id.clone(), String::new()));
            assert forall|j: int| 0 <= j <= i implies #[trigger] pair_texts(keys@)[j] == (
                self@.ruts[j].id,
                Seq::<char>::empty(),
            ) by {
                if j < i {
                    assert(pair_texts(keys@)[j] == pair_texts(before)[j]);
                }
            }
            i = i + 1;
        }
        let distinct = no_pair_twice(&keys);
        proof {
            let views = pair_texts(keys@);
            if distinct {
                assert forall|a: int, b: int| 0 <= a < b < self@.ruts.len() implies !same_rut()(
                    #[trigger] self@.ruts[a],
                    #[trigger] self@.ruts[b],
                ) by {
                    assert(views[a] != views[b]);
                }
            } else {
                let (a, b) = choose|a: int, b: int| 0 <= a < b < views.len() && #[trigger] views[a] == #[trigger] views[b];
                assert(same_rut()(self@.ruts[a], self@.ruts[b]));
            }
        }
        distinct
    }

    /// Whether the tags differ in their names.
    fn tags_distinct(&self) -> (distinct: bool)
        ensures
            distinct == distinct_by(self@.tags, same_tag()),
    {
        let mut keys: Vec<(String, String)> = Vec::new();
        let mut i: usize = 0;
        while i < self.tags.len()
            invariant
                i <= self.tags.len(),
                keys.len() == i,
                forall|j: int|
                    0 <= j < i ==> #[trigger] pair_texts(keys@)[j] == (self@.tags[j].tname, Seq::<char>::empty()),
            decreases self.tags.len() - i,
        {
            let ghost before = keys@;
            keys.push((self.tags[i].tname.clone(), String::new()));
            assert forall|j: int| 0 <= j <= i implies #[trigger] pair_texts(keys@)[j] == (
                self@.tags[j].tname,
                Seq::<char>::empty(),
            ) by {
                if j < i {
                    assert(pair_texts(keys@)[j] == pair_texts(before)[j]);
                }
            }
            i = i + 1;
        }
        let distinct = no_pair_twice(&keys);
        proof {
            let views = pair_texts(keys@);
            if distinct {
                assert forall|a: int, b: int| 0 <= a < b < self@.tags.len() implies !same_tag()(
                    #[trigger] self@.tags[a],
                    #[trigger] self@.tags[b],
                ) by {
                    assert(views[a] != views[b]);
                }
            } else {
                let (a, b) = choose|a: int, b: int| 0 <= a < b < views.len() && #[trigger] views[a] == #[trigger] views[b];
                assert(same_tag()(self@.tags[a], self@.tags[b]));
            }
        }
        distinct
    }

    /// Whether no tag and rut have two links.
    fn links_distinct(&self) -> (distinct: bool)
        ensures
            distinct == distinct_by(self@.tagruts, same_link()),
    {
        let mut keys: Vec<(String, String)> = Vec::new();
        let mut i: usize = 0;
        while i < self.tagruts.len()
            invariant
                i <= self.tagruts.len(),
                keys.len() == i,
                forall|j: int|
                    0 <= j < i ==> #[trigger] pair_texts(keys@)[j] == (self@.tagruts[j].tname, self@.tagruts[j].rut_id),
            decreases self.tagruts.len() - i,
        {
            let ghost before = keys@;
            keys.push((self.tagruts[i].tname.clone(), self.tagruts[i].rut_id.clone()));
            assert forall|j: int| 0 <= j <= i implies #[trigger] pair_texts(keys@)[j] == (
                self@.tagruts[j].tname,
                self@.tagruts[j].rut_id,
            ) by {
                if j < i {
                    assert(pair_texts(keys@)[j] == pair_texts(before)[j]);
                }
            }
            i = i + 1;
        }
        let distinct = no_pair_twice(&keys);
        proof {
            let views = pair_texts(keys@);
            if distinct {
                assert forall|a: int, b: int| 0 <= a < b < self@.tagruts.len() implies !same_link()(
                    #[trigger] self@.tagruts[a],
                    #[trigger] self@.tagruts[b],
                ) by {
                    assert(views[a] != views[b]);
                }
            } else {
                let (a, b) = choose|a: int, b: int| 0 <= a < b < views.len() && #[trigger] views[a] == #[trigger] views[b];
                assert(same_link()(self@.tagruts[a], self@.tagruts[b]));
            }
        }
        distinct
    }

    /// Whether no tag and item have two links.
    fn item_links_distinct(&self) -> (distinct: bool)
        ensures
            distinct == distinct_by(self@.tagitems, same_item_link()),
    {
        let mut keys: Vec<(String, String)> = Vec::new();
        let mut i: usize = 0;
        while i < self.tagitems.len()
            invariant
                i <= self.tagitems.len(),
                keys.len() == i,
                forall|j: int|
                    0 <= j < i ==> #[trigger] pair_texts(keys@)[j] == (
                        self@.tagitems[j].tname,
                        self@.tagitems[j].item_id,
                    ),
            decreases self.tagitems.len() - i,
        {
            let ghost before = keys@;
            keys.push((self.tagitems[i].tname.clone(), self.tagitems[i].item_id.clone()));
            assert forall|j: int| 0 <= j <= i implies #[trigger] pair_texts(keys@)[j] == (
                self@.tagitems[j].tname,
                self@.tagitems[j].item_id,
            ) by {
                if j < i {
                    assert(pair_texts(keys@)[j] == pair_texts(before)[j]);
                }
            }
            i = i + 1;
        }
        let distinct = no_pair_twice(&keys);
        proof {
            let views = pair_texts(keys@);
            if distinct {
                assert forall|a: int, b: int| 0 <= a < b < self@.tagitems.len() implies !same_item_link()(
                    #[trigger] self@.tagitems[a],
                    #[trigger] self@.tagitems[b],
                ) by {
                    assert(views[a] != views[b]);
                }
            } else {
                let (a, b) = choose|a: int, b: int| 0 <= a < b < views.len() && #[trigger] views[a] == #[trigger] views[b];
                assert(same_item_link()(self@.tagitems[a], self@.tagitems[b]));
            }
        }
        distinct
    }

    /// Whether no user has two stars on one rut.
    fn rut_stars_distinct(&self) -> (distinct: bool)
        ensures
            distinct == distinct_by(self@.starruts, same_rut_star()),
    {
        let mut keys: Vec<(String, String)> = Vec::new();
        let mut i: usize = 0;
        while i < self.starruts.len()
            invariant
                i <= self.starruts.len(),
                keys.len() == i,
                forall|j: int|
                    0 <= j < i ==> #[trigger] pair_texts(keys@)[j] == (
                        self@.starruts[j].uname,
                        self@.starruts[j].rut_id,
                    ),
            decreases self.starruts.len() - i,
        {
            let ghost before = keys@;
            keys.push((self.starruts[i].uname.clone(), self.starruts[i].rut_id.clone()));
            assert forall|j: int| 0 <= j <= i implies #[trigger] pair_texts(keys@)[j] == (
                self@.starruts[j].uname,
                self@.starruts[j].rut_id,
            ) by {
                if j < i {
                    assert(pair_texts(keys@)[j] == pair_texts(before)[j]);
                }
            }
            i = i + 1;
        }
        let distinct = no_pair_twice(&keys);
        proof {
            let views = pair_texts(keys@);
            if distinct {
                assert forall|a: int, b: int| 0 <= a < b < self@.starruts.len() implies !same_rut_star()(
                    #[trigger] self@.starruts[a],
                    #[trigger] self@.starruts[b],
                ) by {
                    assert(views[a] != views[b]);
                }
            } else {
                let (a, b) = choose|a: int, b: int| 0 <= a < b < views.len() && #[trigger] views[a] == #[trigger] views[b];
                assert(same_rut_star()(self@.starruts[a], self@.starruts[b]));
            }
        }
        distinct
    }

    /// Whether no user has two stars on one tag.
    fn tag_stars_distinct(&self) -> (distinct: bool)
        ensures
            distinct == distinct_by(self@.startags, same_tag_star()),
    {
        let mut keys: Vec<(String, String)> = Vec::new();
        let mut i: usize = 0;
        while i < self.startags.len()
            invariant
                i <= self.startags.len(),
                keys.len() == i,
                forall|j: int|
                    0 <= j < i ==> #[trigger] pair_texts(keys@)[j] == (
                        self@.startags[j].uname,
                        self@.startags[j].tname,
                    ),
            decreases self.startags.len() - i,
        {
            let ghost before = keys@;
            keys.push((self.startags[i].uname.clone(), self.startags[i].tname.clone()));
            assert forall|j: int| 0 <= j <= i implies #[trigger] pair_texts(keys@)[j] == (
                self@.startags[j].uname,
                self@.startags[j].tname,
            ) by {
                if j < i {
                    assert(pair_texts(keys@)[j] == pair_texts(before)[j]);
                }
            }
            i = i + 1;
        }
        let distinct = no_pair_twice(&keys);
        proof {
            let views = pair_texts(keys@);
            if distinct {
                assert forall|a: int, b: int| 0 <= a < b < self@.startags.len() implies !same_tag_star()(
                    #[trigger] self@.startags[a],
                    #[trigger] self@.startags[b],
                ) by {
                    assert(views[a] != views[b]);
                }
            } else {
                let (a, b) = choose|a: int, b: int| 0 <= a < b < views.len() && #[trigger] views[a] == #[trigger] views[b];
                assert(same_tag_star()(self@.startags[a], self@.startags[b]));
            }
        }
        distinct
    }

    /// Whether a tag with the given name is among the tags.
    fn holds_tag(&self, tname: &String) -> (held: bool)
        ensures
            held == self@.has_tag(tname@),
    {
        let mut i: usize = 0;
        while i < self.tags.len()
            invariant
                i <= self.tags.len(),
                forall|j: int| 0 <= j < i ==> !tag_named(tname@)(#[trigger] self@.tags[j]),
            decreases self.tags.len() - i,
        {
            if self.tags[i].tname == *tname {
                assert(tag_named(tname@)(self@.tags[i as int]));
                return true;
            }
            i = i + 1;
        }
        false
    }

    /// Whether the tag of every link between a tag and a rut is among the
    /// tags.
    fn links_have_tags(&self) -> (held: bool)
        ensures
            held == self@.links_have_tags(),
    {
        let mut i: usize = 0;
        while i < self.tagruts.len()
            invariant
                i <= self.tagruts.len(),
                forall|j: int| 0 <= j < i ==> self@.has_tag((#[trigger] self@.tagruts[j]).tname),
            decreases self.tagruts.len() - i,
        {
            if !self.holds_tag(&self.tagruts[i].tname) {
                assert(!self@.has_tag(self@.tagruts[i as int].tname));
                return false;
            }
            i = i + 1;
        }
        true
    }

    /// Whether the tag of every link between a tag and an item is among the
    /// tags.
    fn item_links_have_tags(&self) -> (held: bool)
        ensures
            held == self@.item_links_have_tags(),
    {
        let mut i: usize = 0;
        while i < self.tagitems.len()
            invariant
                i <= self.tagitems.len(),
                forall|j: int| 0 <= j < i ==> self@.has_tag((#[trigger] self@.tagitems[j]).tname),
            decreases self.tagitems.len() - i,
        {
            if !self.holds_tag(&self.tagitems[i].tname) {
                assert(!self@.has_tag(self@.tagitems[i as int].tname));
                return false;
            }
            i = i + 1;
        }
        true
    }

    /// Whether every stored vote agrees with the counters beside it.
    fn votes_settled(&self) -> (settled: bool)
        ensures
            settled == self@.votes_settled(),
    {
        let mut i: usize = 0;
        while i < self.ruts.len()
            invariant
                i <= self.ruts.len(),
                forall|j: int| 0 <= j < i ==> (#[trigger] self@.ruts[j]).vote_settled(),
            decreases self.ruts.len() - i,
        {
            let rut = &self.ruts[i];
            match checked_rut_vote(rut.item_count, rut.comment_count, rut.star_count) {
                Some(vote) => {
                    if vote != rut.vote {
                        assert(!self@.ruts[i as int].vote_settled());
                        return false;
                    }
                },
                None => {
                    assert(!self@.ruts[i as int].vote_settled());
                    return false;
                },
            }
            i = i + 1;
        }
        let mut k: usize = 0;
        while k < self.tags.len()
            invariant
                k <= self.tags.len(),
                forall|j: int| 0 <= j < self.ruts.len() ==> (#[trigger] self@.ruts[j]).vote_settled(),
                forall|j: int| 0 <= j < k ==> (#[trigger] self@.tags[j]).vote_settled(),
            decreases self.tags.len() - k,
        {
            let tag = &self.tags[k];
            match checked_tag_vote(tag.rut_count, tag.star_count) {
                Some(vote) => {
                    if vote != tag.vote {
                        assert(!self@.tags[k as int].vote_settled());
                        return false;
                    }
                },
                None => {
                    assert(!self@.tags[k as int].vote_settled());
                    return false;
                },
            }
            k = k + 1;
        }
        true
    }

    /// Whether these tables obey the rules of the store.
    pub fn check(&self) -> (ok: bool)
        ensures
            ok == self@.wf(),
    {
        self.ruts_distinct() && self.tags_distinct() && self.links_distinct() && self.item_links_distinct()
            && self.rut_stars_distinct() && self.tag_stars_distinct() && self.links_have_tags()
            && self.item_links_have_tags() && self.votes_settled()
    }
}

impl Store {
    /// The store that holds the given tables, where they obey the rules of
    /// the store; `None` where they do not.
    pub fn from_tables(tables: Tables) -> (store: Option<Store>)
        ensures
            tables@.wf() ==> (store matches Some(s) && s.wf() && s@ == tables@),
            !tables@.wf() ==> store is None,
    {
        if tables.check() {
            Some(
                Store {
                    ruts: tables.ruts,
                    tags: tables.tags,
                    tagruts: tables.tagruts,
                    tagitems: tables.tagitems,
                    starruts: tables.starruts,
                    startags: tables.startags,
                    collects: tables.collects,
                    tag_star_cap: tables.tag_star_cap,
                },
            )
        } else {
            None
        }
    }

    /// The tables of this store.
    pub fn into_tables(self) -> (tables: Tables)
        ensures
            tables@ == self@,
    {
        Tables {
            ruts: self.ruts,
            tags: self.tags,
            tagruts: self.tagruts,
            tagitems: self.tagitems,
            starruts: self.starruts,
            startags: self.startags,
            collects: self.collects,
            tag_star_cap: self.tag_star_cap,
        }
    }
}

} // verus!
