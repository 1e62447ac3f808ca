//! The store: the tables of the service, the rules that every state of them
//! obeys, and the lookups by key.

use vstd::prelude::*;
use crate::db::select::{any_row, distinct_by, is_first};
use crate::model::rut::{Collect, CollectView, Rut, RutView, StarRut, StarRutView};
use crate::model::tag::{StarTag, StarTagView, Tag, TagItem, TagItemView, TagRut, TagRutView, TagView};
use crate::model::TAG_STAR_CAP;

verus! {

/// The mathematical values of the rows of a table.
pub open spec fn rows<T: View>(table: Seq<T>) -> Seq<T::V> {
    table.map_values(|row: T| row@)
}

/// The mathematical values of a list of strings.
pub open spec fn texts(list: Seq<String>) -> Seq<Seq<char>> {
    list.map_values(|s: String| s@)
}

/// The tables of the service. Rows stand in the order in which they were
/// inserted.
#[derive(Debug)]
pub struct Store {
    pub(crate) ruts: Vec<Rut>,
    pub(crate) tags: Vec<Tag>,
    pub(crate) tagruts: Vec<TagRut>,
    pub(crate) tagitems: Vec<TagItem>,
    pub(crate) starruts: Vec<StarRut>,
    pub(crate) startags: Vec<StarTag>,
    pub(crate) collects: Vec<Collect>,
    pub(crate) tag_star_cap: usize,
}

/// The mathematical value of a [`Store`].
pub struct StoreView {
    pub ruts: Seq<RutView>,
    pub tags: Seq<TagView>,
    pub tagruts: Seq<TagRutView>,
    pub tagitems: Seq<TagItemView>,
    pub starruts: Seq<StarRutView>,
    pub startags: Seq<StarTagView>,
    pub collects: Seq<CollectView>,
    /// How many tags one user may have starred at a time.
    pub tag_star_cap: nat,
}

/// The ruts with the given id.
pub open spec fn rut_with_id(id: Seq<char>) -> spec_fn(RutView) -> bool {
    |r: RutView| r.id == id
}

/// The ruts with the given slug.
pub open spec fn rut_with_slug(slug: Seq<char>) -> spec_fn(RutView) -> bool {
    |r: RutView| r.slug == slug
}

/// The ruts with the given URL.
pub open spec fn rut_with_url(url: Seq<char>) -> spec_fn(RutView) -> bool {
    |r: RutView| r.url == url
}

/// The tags with the given name.
pub open spec fn tag_named(tname: Seq<char>) -> spec_fn(TagView) -> bool {
    |t: TagView| t.tname == tname
}

/// The links between the given tag and rut.
pub open spec fn link_joining(tname: Seq<char>, rut_id: Seq<char>) -> spec_fn(TagRutView) -> bool {
    |l: TagRutView| l.tname == tname && l.rut_id == rut_id
}

/// The links that put the given item into the given rut.
pub open spec fn collect_joining(item_id: Seq<char>, rut_id: Seq<char>) -> spec_fn(CollectView) -> bool {
    |c: CollectView| c.item_id == item_id && c.rut_id == rut_id
}

/// The stars that the given user gave to the given rut.
pub open spec fn rut_star_of(uname: Seq<char>, rut_id: Seq<char>) -> spec_fn(StarRutView) -> bool {
    |s: StarRutView| s.uname == uname && s.rut_id == rut_id
}

/// The stars that the given user gave to the given tag.
pub open spec fn tag_star_of(uname: Seq<char>, tname: Seq<char>) -> spec_fn(StarTagView) -> bool {
    |s: StarTagView| s.uname == uname && s.tname == tname
}

/// The stars that the given user gave to any tag.
pub open spec fn tag_star_by(uname: Seq<char>) -> spec_fn(StarTagView) -> bool {
    |s: StarTagView| s.uname == uname
}

/// Two ruts with one id.
pub open spec fn same_rut() -> spec_fn(RutView, RutView) -> bool {
    |a: RutView, b: RutView| a.id == b.id
}

/// Two tags with one name.
pub open spec fn same_tag() -> spec_fn(TagView, TagView) -> bool {
    |a: TagView, b: TagView| a.tname == b.tname
}

/// Two links between one tag and one rut.
pub open spec fn same_link() -> spec_fn(TagRutView, TagRutView) -> bool {
    |a: TagRutView, b: TagRutView| a.tname == b.tname && a.rut_id == b.rut_id
}

/// Two links between one tag and one item.
pub open spec fn same_item_link() -> spec_fn(TagItemView, TagItemView) -> bool {
    |a: TagItemView, b: TagItemView| a.tname == b.tname && a.item_id == b.item_id
}

/// Two stars of one user on one rut.
pub open spec fn same_rut_star() -> spec_fn(StarRutView, StarRutView) -> bool {
    |a: StarRutView, b: StarRutView| a.uname == b.uname && a.rut_id == b.rut_id
}

/// Two stars of one user on one tag.
pub open spec fn same_tag_star() -> spec_fn(StarTagView, StarTagView) -> bool {
    |a: StarTagView, b: StarTagView| a.uname == b.uname && a.tname == b.tname
}

impl StoreView {
    /// The rules that every state of the store obeys: its rows are keyed,
    /// and every stored vote agrees with the counters beside it.
    pub open spec fn wf(self) -> bool {
        self.keyed() && self.votes_settled()
    }

    /// The rules on keys: ruts differ in their ids and tags in their names;
    /// a tag has one link at most to a rut and to an item; a user has one
    /// star at most on a rut and on a tag; and the tag of every link exists.
    pub open spec fn keyed(self) -> bool {
        &&& distinct_by(self.ruts, same_rut())
        &&& distinct_by(self.tags, same_tag())
        &&& distinct_by(self.tagruts, same_link())
        &&& distinct_by(self.tagitems, same_item_link())
        &&& distinct_by(self.starruts, same_rut_star())
        &&& distinct_by(self.startags, same_tag_star())
        &&& self.links_have_tags()
        &&& self.item_links_have_tags()
    }

    /// The tag of every link between a tag and a rut exists.
    pub open spec fn links_have_tags(self) -> bool {
        forall|i: int| 0 <= i < self.tagruts.len() ==> self.has_tag((#[trigger] self.tagruts[i]).tname)
    }

    /// The tag of every link between a tag and an item exists.
    pub open spec fn item_links_have_tags(self) -> bool {
        forall|i: int| 0 <= i < self.tagitems.len() ==> self.has_tag((#[trigger] self.tagitems[i]).tname)
    }

    /// Whether a rut with the given id exists.
    pub open spec fn has_rut(self, id: Seq<char>) -> bool {
        any_row(self.ruts, rut_with_id(id))
    }

    /// Whether a tag with the given name exists.
    pub open spec fn has_tag(self, tname: Seq<char>) -> bool {
        any_row(self.tags, tag_named(tname))
    }

    /// Whether the given tag and rut are linked.
    pub open spec fn linked(self, tname: Seq<char>, rut_id: Seq<char>) -> bool {
        any_row(self.tagruts, link_joining(tname, rut_id))
    }

    /// Whether the given rut collects the given item.
    pub open spec fn collected(self, item_id: Seq<char>, rut_id: Seq<char>) -> bool {
        any_row(self.collects, collect_joining(item_id, rut_id))
    }

    /// Whether the given user has starred the given rut. The star row alone
    /// decides; the counter of the rut is not read.
    pub open spec fn rut_starred(self, uname: Seq<char>, rut_id: Seq<char>) -> bool {
        any_row(self.starruts, rut_star_of(uname, rut_id))
    }

    /// Whether the given user has starred the given tag. The star row alone
    /// decides; the counter of the tag is not read.
    pub open spec fn tag_starred(self, uname: Seq<char>, tname: Seq<char>) -> bool {
        any_row(self.startags, tag_star_of(uname, tname))
    }

    /// How many tags the given user has starred.
    pub open spec fn tag_stars_held(self, uname: Seq<char>) -> nat {
        self.startags.filter(tag_star_by(uname)).len()
    }

    /// Every stored vote agrees with the counters beside it.
    pub open spec fn votes_settled(self) -> bool {
        &&& forall|i: int| 0 <= i < self.ruts.len() ==> (#[trigger] self.ruts[i]).vote_settled()
        &&& forall|i: int| 0 <= i < self.tags.len() ==> (#[trigger] self.tags[i]).vote_settled()
    }
}

impl Store {
    /// The mathematical value of the store.
    pub open(crate) spec fn view(&self) -> StoreView {
        StoreView {
            ruts: rows(self.ruts@),
            tags: rows(self.tags@),
            tagruts: rows(self.tagruts@),
            tagitems: rows(self.tagitems@),
            starruts: rows(self.starruts@),
            startags: rows(self.startags@),
            collects: rows(self.collects@),
            tag_star_cap: self.tag_star_cap as nat,
        }
    }

    /// Whether the store obeys its rules.
    pub open spec fn wf(&self) -> bool {
        self@.wf()
    }

    /// An empty store in which a user may star `TAG_STAR_CAP` tags.
    pub fn new() -> (store: Store)
        ensures
            store.wf(),
            store@.ruts.len() == 0,
            store@.tags.len() == 0,
            store@.tagruts.len() == 0,
            store@.tagitems.len() == 0,
            store@.starruts.len() == 0,
            store@.startags.len() == 0,
            store@.collects.len() == 0,
            store@.tag_star_cap == TAG_STAR_CAP,
    {
        Store::with_tag_star_cap(TAG_STAR_CAP)
    }

    /// An empty store in which a user may star `cap` tags.
    pub fn with_tag_star_cap(cap: usize) -> (store: Store)
        ensures
            store.wf(),
            store@.ruts.len() == 0,
            store@.tags.len() == 0,
            store@.tagruts.len() == 0,
            store@.tagitems.len() == 0,
            store@.starruts.len() == 0,
            store@.startags.len() == 0,
            store@.collects.len() == 0,
            store@.tag_star_cap == cap,
    {
        Store {
            ruts: Vec::new(),
            tags: Vec::new(),
            tagruts: Vec::new(),
            tagitems: Vec::new(),
            starruts: Vec::new(),
            startags: Vec::new(),
            collects: Vec::new(),
            tag_star_cap: cap,
        }
    }

    /// The ruts, in the order of their insertion.
    pub fn ruts(&self) -> (table: &Vec<Rut>)
        ensures
            rows(table@) == self@.ruts,
    {
        &self.ruts
    }

    /// The tags, in the order of their insertion.
    pub fn tags(&self) -> (table: &Vec<Tag>)
        ensures
            rows(table@) == self@.tags,
    {
        &self.tags
    }

    /// The links between tags and ruts, in the order of their insertion.
    pub fn tagruts(&self) -> (table: &Vec<TagRut>)
        ensures
            rows(table@) == self@.tagruts,
    {
        &self.tagruts
    }

    /// The links between tags and items, in the order of their insertion.
    pub fn tagitems(&self) -> (table: &Vec<TagItem>)
        ensures
            rows(table@) == self@.tagitems,
    {
        &self.tagitems
    }

    /// The stars on ruts, in the order of their insertion.
    pub fn starruts(&self) -> (table: &Vec<StarRut>)
        ensures
            rows(table@) == self@.starruts,
    {
        &self.starruts
    }

    /// The stars on tags, in the order of their insertion.
    pub fn startags(&self) -> (table: &Vec<StarTag>)
        ensures
            rows(table@) == self@.startags,
    {
        &self.startags
    }

    /// The links between ruts and items, in the order of their insertion.
    pub fn collects(&self) -> (table: &Vec<Collect>)
        ensures
            rows(table@) == self@.collects,
    {
        &self.collects
    }

    /// How many tags one user may have starred at a time.
    pub fn tag_star_cap(&self) -> (cap: usize)
        ensures
            cap == self@.tag_star_cap,
    {
        self.tag_star_cap
    }

    /// Index of the rut with the given id, or the number of ruts where there
    /// is none.
    pub(crate) fn find_rut(&self, id: &String) -> (at: usize)
        ensures
            is_first(self@.ruts, rut_with_id(id@), at as int),
    {
        let mut i: usize = 0;
        while i < self.ruts.len()
            invariant
                i <= self.ruts.len(),
                forall|j: int| 0 <= j < i ==> !rut_with_id(id@)(#[trigger] self@.ruts[j]),
            decreases self.ruts.len() - i,
        {
            if self.ruts[i].id == *id {
                return i;
            }
            i = i + 1;
        }
        i
    }

    /// Index of the first rut with the given slug, or the number of ruts
    /// where there is none.
    pub(crate) fn find_rut_by_slug(&self, slug: &String) -> (at: usize)
        ensures
            is_first(self@.ruts, rut_with_slug(slug@), at as int),
    {
        let mut i: usize = 0;
        while i < self.ruts.len()
            invariant
                i <= self.ruts.len(),
                forall|j: int| 0 <= j < i ==> !rut_with_slug(slug@)(#[trigger] self@.ruts[j]),
            decreases self.ruts.len() - i,
        {
            if self.ruts[i].slug == *slug {
                return i;
            }
            i = i + 1;
        }
        i
    }

    /// Index of the first rut with the given URL, or the number of ruts
    /// where there is none.
    pub(crate) fn find_rut_by_url(&self, url: &String) -> (at: usize)
        ensures
            is_first(self@.ruts, rut_with_url(url@), at as int),
    {
        let mut i: usize = 0;
        while i < self.ruts.len()
            invariant
                i <= self.ruts.len(),
                forall|j: int| 0 <= j < i ==> !rut_with_url(url@)(#[trigger] self@.ruts[j]),
            decreases self.ruts.len() - i,
        {
            if self.ruts[i].url == *url {
                return i;
            }
            i = i + 1;
        }
        i
    }

    /// Index of the tag with the given name, or the number of tags where
    /// there is none.
    pub(crate) fn find_tag(&self, tname: &String) -> (at: usize)
        ensures
            is_first(self@.tags, tag_named(tname@), at as int),
    {
        let mut i: usize = 0;
        while i < self.tags.len()
            invariant
                i <= self.tags.len(),
                forall|j: int| 0 <= j < i ==> !tag_named(tname@)(#[trigger] self@.tags[j]),
            decreases self.tags.len() - i,
        {
            if self.tags[i].tname == *tname {
                return i;
            }
            i = i + 1;
        }
        i
    }

    /// Index of the link between the given tag and rut, or the number of
    /// links where there is none.
    pub(crate) fn find_link(&self, tname: &String, rut_id: &String) -> (at: usize)
        ensures
            is_first(self@.tagruts, link_joining(tname@, rut_id@), at as int),
    {
        let mut i: usize = 0;
        while i < self.tagruts.len()
            invariant
                i <= self.tagruts.len(),
                forall|j: int| 0 <= j < i ==> !link_joining(tname@, rut_id@)(#[trigger] self@.tagruts[j]),
            decreases self.tagruts.len() - i,
        {
            if self.tagruts[i].tname == *tname && self.tagruts[i].rut_id == *rut_id {
                return i;
            }
            i = i + 1;
        }
        i
    }

    /// Index of the first link that puts the given item into the given rut,
    /// or the number of such links where there is none.
    pub(crate) fn find_collect(&self, item_id: &String, rut_id: &String) -> (at: usize)
        ensures
            is_first(self@.collects, collect_joining(item_id@, rut_id@), at as int),
    {
        let mut i: usize = 0;
        while i < self.collects.len()
            invariant
                i <= self.collects.len(),
                forall|j: int| 0 <= j < i ==> !collect_joining(item_id@, rut_id@)(#[trigger] self@.collects[j]),
            decreases self.collects.len() - i,
        {
            if self.collects[i].item_id == *item_id && self.collects[i].rut_id == *rut_id {
                return i;
            }
            i = i + 1;
        }
        i
    }

    /// Index of the star of the given user on the given rut, or the number
    /// of such stars where there is none.
    pub(crate) fn find_rut_star(&self, uname: &String, rut_id: &String) -> (at: usize)
        ensures
            is_first(self@.starruts, rut_star_of(uname@, rut_id@), at as int),
    {
        let mut i: usize = 0;
        while i < self.starruts.len()
            invariant
                i <= self.starruts.len(),
                forall|j: int| 0 <= j < i ==> !rut_star_of(uname@, rut_id@)(#[trigger] self@.starruts[j]),
            decreases self.starruts.len() - i,
        {
            if self.starruts[i].uname == *uname && self.starruts[i].rut_id == *rut_id {
                return i;
            }
            i = i + 1;
        }
        i
    }

    /// Index of the star of the given user on the given tag, or the number
    /// of such stars where there is none.
    pub(crate) fn find_tag_star(&self, uname: &String, tname: &String) -> (at: usize)
        ensures
            is_first(self@.startags, tag_star_of(uname@, tname@), at as int),
    {
        let mut i: usize = 0;
        while i < self.startags.len()
            invariant
                i <= self.startags.len(),
                forall|j: int| 0 <= j < i ==> !tag_star_of(uname@, tname@)(#[trigger] self@.startags[j]),
            decreases self.startags.len() - i,
        {
            if self.startags[i].uname == *uname && self.startags[i].tname == *tname {
                return i;
            }
            i = i + 1;
        }
        i
    }
}

} // verus!
