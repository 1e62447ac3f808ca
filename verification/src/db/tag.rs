//! The association store: the links between tags and ruts, the tags that
//! the links call into being, and the counters that follow them.

use vstd::prelude::*;
use crate::db::select::{
    any_row, first_index, lemma_distinct_map, lemma_distinct_push, lemma_distinct_remove, lemma_filter_all, lemma_filter_out_one, lemma_first_index,
};
use crate::db::store::{link_joining, same_link, same_tag, tag_named, texts, Store, StoreView};
use crate::errors::{fails, ServiceError};
use crate::model::msg::{replies, Msg, TagMsg};
use crate::model::tag::{CheckTag, RutTag, Tag, TagRut, TagRutView, TagView, UpdateTag};
use crate::rank::fits_counter;
use crate::text::{same_text, trim, trimmed};

verus! {

/// The change that a repeated tagging makes to the links: the link between
/// the given tag and rut is applied once more.
pub open spec fn applied_again_on(tname: Seq<char>, rut_id: Seq<char>) -> spec_fn(TagRutView) -> TagRutView {
    |l: TagRutView| if l.joins(tname, rut_id) { l.applied_again() } else { l }
}

/// The change that a first tagging makes to the tags: the tag with the
/// given name has one more rut under it and its vote recomputed.
pub open spec fn rut_linked_on(tname: Seq<char>) -> spec_fn(TagView) -> TagView {
    |t: TagView| if t.tname == tname { t.with_rut_linked() } else { t }
}

/// Every link but the one between the given tag and rut.
pub open spec fn not_link_joining(tname: Seq<char>, rut_id: Seq<char>) -> spec_fn(TagRutView) -> bool {
    |l: TagRutView| !(l.tname == tname && l.rut_id == rut_id)
}

/// What became of a tag name that had to exist.
#[derive(Debug)]
pub enum EnsureTag {
    /// No tag had the name; this one was created.
    Created(Tag),
    /// This tag had the name already.
    Found(Tag),
}

impl StoreView {
    /// The tag with the given name.
    pub open spec fn tag_by_name(self, tname: Seq<char>) -> TagView {
        self.tags[first_index(self.tags, tag_named(tname))]
    }

    /// The link between the given tag and rut.
    pub open spec fn link_of(self, tname: Seq<char>, rut_id: Seq<char>) -> TagRutView {
        self.tagruts[first_index(self.tagruts, link_joining(tname, rut_id))]
    }

    /// This store with one more tag.
    pub open spec fn with_tag(self, tag: TagView) -> StoreView {
        StoreView { tags: self.tags.push(tag), ..self }
    }

    /// This store with a tag of the given name: the store itself where the
    /// tag exists, else the store with a fresh tag of that name.
    pub open spec fn with_tag_ensured(self, tname: Seq<char>) -> StoreView {
        if self.has_tag(tname) {
            self
        } else {
            self.with_tag(TagView::fresh(tname))
        }
    }

    /// Whether the given tag can be applied to the given rut: no counter
    /// that the tagging raises would leave its column.
    pub open spec fn link_appliable(self, tname: Seq<char>, rut_id: Seq<char>) -> bool {
        if self.linked(tname, rut_id) {
            fits_counter(self.link_of(tname, rut_id).count + 1)
        } else if self.has_tag(tname) {
            self.tag_by_name(tname).with_rut_linked().storable()
        } else {
            true
        }
    }

    /// This store after the given tag was applied to the given rut. Where
    /// they are linked, the link counts one more application. Else the tag
    /// is created unless it exists, a link with count 1 is added, and the
    /// tag counts one more rut and has its vote recomputed.
    pub open spec fn with_link_applied(self, tname: Seq<char>, rut_id: Seq<char>) -> StoreView {
        if self.linked(tname, rut_id) {
            StoreView { tagruts: self.tagruts.map_values(applied_again_on(tname, rut_id)), ..self }
        } else {
            StoreView {
                tags: self.with_tag_ensured(tname).tags.map_values(rut_linked_on(tname)),
                tagruts: self.tagruts.push(TagRutView::first(tname, rut_id)),
                ..self
            }
        }
    }

    /// This store without the link between the given tag and rut, whatever
    /// its count was. No counter follows.
    pub open spec fn without_link(self, tname: Seq<char>, rut_id: Seq<char>) -> StoreView {
        StoreView { tagruts: self.tagruts.filter(not_link_joining(tname, rut_id)), ..self }
    }

    /// This store after the first `n` of the given tags were applied to the
    /// rut, one after the other.
    pub open spec fn with_links_applied(self, tnames: Seq<Seq<char>>, rut_id: Seq<char>, n: int) -> StoreView
        decreases n,
    {
        if n <= 0 {
            self
        } else {
            self.with_links_applied(tnames, rut_id, n - 1).with_link_applied(tnames[n - 1], rut_id)
        }
    }

    /// This store after the links of the first `n` of the given tags to the
    /// rut were removed, one after the other.
    pub open spec fn without_links(self, tnames: Seq<Seq<char>>, rut_id: Seq<char>, n: int) -> StoreView
        decreases n,
    {
        if n <= 0 {
            self
        } else {
            self.without_links(tnames, rut_id, n - 1).without_link(tnames[n - 1], rut_id)
        }
    }

    /// Whether tagging a rut with the given names stops behind the first
    /// `n` of them: each of those can be applied in its turn, and `n` is
    /// either all of them or the next one cannot be applied.
    pub open spec fn tagging_stops_at(self, tnames: Seq<Seq<char>>, rut_id: Seq<char>, n: int) -> bool {
        &&& 0 <= n <= tnames.len()
        &&& forall|k: int|
            0 <= k < n ==> (#[trigger] self.with_links_applied(tnames, rut_id, k)).link_appliable(tnames[k], rut_id)
        &&& n < tnames.len() ==> !self.with_links_applied(tnames, rut_id, n).link_appliable(tnames[n], rut_id)
    }
}

/// The change that a new description makes to the tags.
pub open spec fn described_on(edit: UpdateTag) -> spec_fn(TagView) -> TagView {
    |t: TagView| if t.tname == edit.tname@ { t.described(edit) } else { t }
}

impl StoreView {
    /// This store after a tag got a new description.
    pub open spec fn with_tag_described(self, edit: UpdateTag) -> StoreView {
        StoreView { tags: self.tags.map_values(described_on(edit)), ..self }
    }

    /// What a request to create or read a tag leads to. The action `"POST"`,
    /// white space around it set aside, creates a fresh tag of the name and
    /// returns it with the message `"Added"`; a name that is taken is a
    /// failure of the store. Any other action reads the tag of the name and
    /// returns it with the message `"Get"`, or finds none. The status of
    /// both answers is 200.
    pub open spec fn tag_checked(self, tg: CheckTag, after: StoreView, res: Result<TagMsg, ServiceError>) -> bool {
        if trimmed(tg.action@) == "POST"@ {
            if self.has_tag(tg.tname@) {
                after == self && fails(res, ServiceError::StoreFailure)
            } else {
                &&& after == self.with_tag(TagView::fresh(tg.tname@))
                &&& res matches Ok(msg)
                &&& msg.status == 200
                &&& msg.message@ == "Added"@
                &&& msg.tag@ == TagView::fresh(tg.tname@)
            }
        } else if self.has_tag(tg.tname@) {
            &&& after == self
            &&& res matches Ok(msg)
            &&& msg.status == 200
            &&& msg.message@ == "Get"@
            &&& msg.tag@ == self.tag_by_name(tg.tname@)
        } else {
            after == self && fails(res, ServiceError::NotFound)
        }
    }

    /// What a request to describe a tag leads to. Where no tag has the
    /// name, the tag is not found and nothing changes. Else the tag gets the
    /// description and is returned with status 201.
    pub open spec fn tag_described(self, edit: UpdateTag, after: StoreView, res: Result<TagMsg, ServiceError>) -> bool {
        if !self.has_tag(edit.tname@) {
            after == self && fails(res, ServiceError::NotFound)
        } else {
            &&& after == self.with_tag_described(edit)
            &&& res matches Ok(msg)
            &&& msg.status == 201
            &&& msg.message@ == "Updated"@
            &&& msg.tag@ == self.tag_by_name(edit.tname@).described(edit)
        }
    }
}

/// A change of the tags that leaves their names alone keeps the rules of
/// the store.
pub proof fn lemma_tags_changed(s: StoreView, change: spec_fn(TagView) -> TagView)
    requires
        s.keyed(),
        forall|t: TagView| (#[trigger] change(t)).tname == t.tname,
    ensures
        (StoreView { tags: s.tags.map_values(change), ..s }).keyed(),
{
    let t = StoreView { tags: s.tags.map_values(change), ..s };
    lemma_distinct_map(s.tags, same_tag(), change);
    assert forall|i: int| 0 <= i < t.tagruts.len() implies t.has_tag((#[trigger] t.tagruts[i]).tname) by {
        assert(s.has_tag(s.tagruts[i].tname));
        lemma_tag_kept(s.tags, t.tags, t.tagruts[i].tname);
    }
    assert forall|i: int| 0 <= i < t.tagitems.len() implies t.has_tag((#[trigger] t.tagitems[i]).tname) by {
        assert(s.has_tag(s.tagitems[i].tname));
        lemma_tag_kept(s.tags, t.tags, t.tagitems[i].tname);
    }
}

/// A tag that exists still exists when tags are added behind it and the
/// tags before keep their names.
pub proof fn lemma_tag_kept(before: Seq<TagView>, after: Seq<TagView>, tname: Seq<char>)
    requires
        any_row(before, tag_named(tname)),
        before.len() <= after.len(),
        forall|i: int| 0 <= i < before.len() ==> (#[trigger] after[i]).tname == before[i].tname,
    ensures
        any_row(after, tag_named(tname)),
{
    let i = choose|i: int| 0 <= i < before.len() && tag_named(tname)(#[trigger] before[i]);
    assert(tag_named(tname)(after[i]));
}

/// Making sure that a tag exists keeps the rules of the store.
pub proof fn lemma_tag_ensured(s: StoreView, tname: Seq<char>)
    requires
        s.keyed(),
    ensures
        s.with_tag_ensured(tname).keyed(),
        s.with_tag_ensured(tname).has_tag(tname),
        s.votes_settled() ==> s.with_tag_ensured(tname).votes_settled(),
{
    if !s.has_tag(tname) {
        let t = s.with_tag_ensured(tname);
        lemma_distinct_push(s.tags, same_tag(), TagView::fresh(tname));
        assert(tag_named(tname)(t.tags[s.tags.len() as int]));
        assert forall|i: int| 0 <= i < t.tagruts.len() implies t.has_tag((#[trigger] t.tagruts[i]).tname) by {
            lemma_tag_kept(s.tags, t.tags, t.tagruts[i].tname);
        }
        assert forall|i: int| 0 <= i < t.tagitems.len() implies t.has_tag((#[trigger] t.tagitems[i]).tname) by {
            lemma_tag_kept(s.tags, t.tags, t.tagitems[i].tname);
        }
    }
}

/// Applying a tag to a rut keeps the rules of the store, and leaves the tag
/// and the rut linked.
pub proof fn lemma_link_applied(s: StoreView, tname: Seq<char>, rut_id: Seq<char>)
    requires
        s.keyed(),
    ensures
        s.with_link_applied(tname, rut_id).keyed(),
        s.with_link_applied(tname, rut_id).linked(tname, rut_id),
        s.votes_settled() ==> s.with_link_applied(tname, rut_id).votes_settled(),
{
    let t = s.with_link_applied(tname, rut_id);
    if s.linked(tname, rut_id) {
        lemma_distinct_map(s.tagruts, same_link(), applied_again_on(tname, rut_id));
        let i = choose|i: int| 0 <= i < s.tagruts.len() && link_joining(tname, rut_id)(#[trigger] s.tagruts[i]);
        assert(link_joining(tname, rut_id)(t.tagruts[i]));
        assert forall|i: int| 0 <= i < t.tagruts.len() implies t.has_tag((#[trigger] t.tagruts[i]).tname) by {
            assert(t.tagruts[i].tname == s.tagruts[i].tname);
        }
    } else {
        let e = s.with_tag_ensured(tname);
        lemma_tag_ensured(s, tname);
        lemma_distinct_map(e.tags, same_tag(), rut_linked_on(tname));
        lemma_distinct_push(s.tagruts, same_link(), TagRutView::first(tname, rut_id));
        assert(link_joining(tname, rut_id)(t.tagruts[s.tagruts.len() as int]));
        assert forall|i: int| 0 <= i < t.tagruts.len() implies t.has_tag((#[trigger] t.tagruts[i]).tname) by {
            if i < s.tagruts.len() {
                assert(t.tagruts[i] == s.tagruts[i]);
                assert(e.has_tag(s.tagruts[i].tname));
            }
            lemma_tag_kept(e.tags, t.tags, t.tagruts[i].tname);
        }
        assert forall|i: int| 0 <= i < t.tagitems.len() implies t.has_tag((#[trigger] t.tagitems[i]).tname) by {
            assert(e.has_tag(e.tagitems[i].tname));
            lemma_tag_kept(e.tags, t.tags, t.tagitems[i].tname);
        }
        if s.votes_settled() {
            assert forall|i: int| 0 <= i < t.tags.len() implies (#[trigger] t.tags[i]).vote_settled() by {
                assert(e.tags[i].vote_settled());
            }
        }
    }
}

/// Removing a link keeps the rules of the store, and leaves the tag and the
/// rut without a link.
pub proof fn lemma_without_link(s: StoreView, tname: Seq<char>, rut_id: Seq<char>)
    requires
        s.keyed(),
    ensures
        s.without_link(tname, rut_id).keyed(),
        !s.without_link(tname, rut_id).linked(tname, rut_id),
        s.votes_settled() ==> s.without_link(tname, rut_id).votes_settled(),
        !s.linked(tname, rut_id) ==> s.without_link(tname, rut_id) == s,
        s.linked(tname, rut_id) ==> 0 <= first_index(s.tagruts, link_joining(tname, rut_id)) < s.tagruts.len()
            && s.without_link(tname, rut_id).tagruts == s.tagruts.remove(
            first_index(s.tagruts, link_joining(tname, rut_id)),
        ),
{
    let keep = not_link_joining(tname, rut_id);
    let t = s.without_link(tname, rut_id);
    if s.linked(tname, rut_id) {
        let at = choose|i: int| 0 <= i < s.tagruts.len() && link_joining(tname, rut_id)(#[trigger] s.tagruts[i]);
        assert forall|j: int| 0 <= j < s.tagruts.len() && j != at implies keep(#[trigger] s.tagruts[j]) by {
            if j < at {
                assert(!same_link()(s.tagruts[j], s.tagruts[at]));
            } else {
                assert(!same_link()(s.tagruts[at], s.tagruts[j]));
            }
        }
        assert forall|j: int| 0 <= j < at implies !link_joining(tname, rut_id)(#[trigger] s.tagruts[j]) by {
            assert(keep(s.tagruts[j]));
        }
        lemma_first_index(s.tagruts, link_joining(tname, rut_id), at);
        lemma_filter_out_one(s.tagruts, keep, at);
        lemma_distinct_remove(s.tagruts, same_link(), at);
        assert forall|i: int| 0 <= i < t.tagruts.len() implies t.has_tag((#[trigger] t.tagruts[i]).tname) by {
            if i < at {
                assert(t.tagruts[i] == s.tagruts[i]);
            } else {
                assert(t.tagruts[i] == s.tagruts[i + 1]);
            }
        }
        assert forall|i: int| 0 <= i < t.tagruts.len() implies !link_joining(tname, rut_id)(
            #[trigger] t.tagruts[i],
        ) by {
            if i < at {
                assert(t.tagruts[i] == s.tagruts[i]);
            } else {
                assert(t.tagruts[i] == s.tagruts[i + 1]);
            }
        }
    } else {
        assert forall|j: int| 0 <= j < s.tagruts.len() implies keep(#[trigger] s.tagruts[j]) by {
            assert(!link_joining(tname, rut_id)(s.tagruts[j]));
        }
        lemma_filter_all(s.tagruts, keep);
        assert(t.tagruts == s.tagruts);
        assert(t == s);
    }
}

impl Store {
    /// Makes sure that a tag with the given name exists, and tells whether
    /// it had to be created.
    pub fn ensure_tag(&mut self, tname: &String) -> (tag: EnsureTag)
        requires
            old(self).wf(),
        ensures
            final(self).wf(),
            final(self)@ == old(self)@.with_tag_ensured(tname@),
            final(self)@.has_tag(tname@),
            match tag {
                EnsureTag::Created(t) => !old(self)@.has_tag(tname@) && t@ == TagView::fresh(tname@),
                EnsureTag::Found(t) => old(self)@.has_tag(tname@) && t@ == old(self)@.tag_by_name(tname@),
            },
    {
        let at = self.find_tag(tname);
        proof {
            lemma_first_index(self@.tags, tag_named(tname@), at as int);
            lemma_tag_ensured(self@, tname@);
        }
        if at < self.tags.len() {
            EnsureTag::Found(self.tags[at].clone())
        } else {
            let tag = Tag::new(tname.clone());
            let copy = tag.clone();
            self.tags.push(tag);
            proof {
                assert(self@.tags =~= old(self)@.tags.push(copy@));
            }
            EnsureTag::Created(copy)
        }
    }

    /// Applies a tag to a rut. Where they are linked already, the link
    /// counts one more application. Else the tag is created unless it
    /// exists, a link with count 1 is added, and the tag counts one more rut
    /// and has its vote recomputed. Where a counter would leave its column,
    /// the store fails and nothing changes.
    pub fn upsert_association(&mut self, tname: &String, rut_id: &String) -> (res: Result<(), ServiceError>)
        requires
            old(self).wf(),
        ensures
            final(self).wf(),
            old(self)@.link_appliable(tname@, rut_id@) ==> res is Ok && final(self)@ == old(self)@.with_link_applied(
                tname@,
                rut_id@,
            ),
            !old(self)@.link_appliable(tname@, rut_id@) ==> fails(res, ServiceError::StoreFailure) && final(self)@
                == old(self)@,
    {
        let at = self.find_link(tname, rut_id);
        proof {
            lemma_first_index(self@.tagruts, link_joining(tname@, rut_id@), at as int);
            lemma_link_applied(self@, tname@, rut_id@);
        }
        if at < self.tagruts.len() {
            match self.tagruts[at].applied_again() {
                None => Err(ServiceError::StoreFailure),
                Some(link) => {
                    self.tagruts.set(at, link);
                    proof {
                        assert(self@.tagruts =~= old(self)@.tagruts.map_values(applied_again_on(tname@, rut_id@)));
                    }
                    Ok(())
                },
            }
        } else {
            let tag_at = self.find_tag(tname);
            proof {
                lemma_first_index(self@.tags, tag_named(tname@), tag_at as int);
            }
            if tag_at < self.tags.len() {
                match self.tags[tag_at].with_rut_linked() {
                    None => {
                        return Err(ServiceError::StoreFailure);
                    },
                    Some(tag) => {
                        self.tags.set(tag_at, tag);
                    },
                }
            } else {
                let fresh = Tag::new(tname.clone());
                match fresh.with_rut_linked() {
                    None => {
                        return Err(ServiceError::StoreFailure);
                    },
                    Some(tag) => {
                        self.tags.push(tag);
                    },
                }
            }
            let link = TagRut::first(tname, rut_id);
            let ghost link_view = link@;
            self.tagruts.push(link);
            proof {
                let e = old(self)@.with_tag_ensured(tname@);
                assert(self@.tags =~= e.tags.map_values(rut_linked_on(tname@)));
                assert(self@.tagruts =~= old(self)@.tagruts.push(link_view));
            }
            Ok(())
        }
    }

    /// Removes the link between a tag and a rut, whatever its count, and
    /// tells how many rows went: one where they were linked, none where
    /// they were not. No counter follows.
    pub fn remove_association(&mut self, tname: &String, rut_id: &String) -> (removed: usize)
        requires
            old(self).wf(),
        ensures
            final(self).wf(),
            final(self)@ == old(self)@.without_link(tname@, rut_id@),
            removed == (if old(self)@.linked(tname@, rut_id@) { 1usize } else { 0usize }),
            !final(self)@.linked(tname@, rut_id@),
    {
        let at = self.find_link(tname, rut_id);
        proof {
            lemma_first_index(self@.tagruts, link_joining(tname@, rut_id@), at as int);
            lemma_without_link(self@, tname@, rut_id@);
        }
        if at < self.tagruts.len() {
            self.tagruts.remove(at);
            proof {
                assert(self@.tagruts =~= old(self)@.tagruts.remove(at as int));
            }
            1
        } else {
            0
        }
    }
    /// Tags or untags a rut with a list of tag names.
    ///
    /// With `action` 1 the names are applied one after the other. Where one
    /// of them cannot be applied, the request fails there: the names before
    /// it stay applied, the others are not tried. With any other `action`
    /// the links of the names to the rut are removed, whatever their counts.
    pub fn rut_tag(&mut self, rutg: RutTag) -> (res: Result<Msg, ServiceError>)
        requires
            old(self).wf(),
        ensures
            final(self).wf(),
            rutg.action == 1 ==> exists|n: int| #[trigger]
                old(self)@.tagging_stops_at(texts(rutg.tnames@), rutg.rut_id@, n) && final(self)@ == old(
                    self,
                )@.with_links_applied(texts(rutg.tnames@), rutg.rut_id@, n) && (n == rutg.tnames.len()
                    ==> replies(res, 201, "Done"@)) && (n < rutg.tnames.len() ==> fails(
                    res,
                    ServiceError::StoreFailure,
                )),
            rutg.action != 1 ==> final(self)@ == old(self)@.without_links(
                texts(rutg.tnames@),
                rutg.rut_id@,
                rutg.tnames.len() as int,
            ) && replies(res, 201, "Done"@),
    {
        let ghost start = self@;
        let ghost names = texts(rutg.tnames@);
        let mut i: usize = 0;
        if rutg.action == 1 {
            while i < rutg.tnames.len()
                invariant
                    i <= rutg.tnames.len(),
                    self.wf(),
                    rutg.action == 1,
                    start == old(self)@,
                    names == texts(rutg.tnames@),
                    self@ == start.with_links_applied(names, rutg.rut_id@, i as int),
                    forall|k: int|
                        0 <= k < i ==> (#[trigger] start.with_links_applied(names, rutg.rut_id@, k)).link_appliable(
                            names[k],
                            rutg.rut_id@,
                        ),
                decreases rutg.tnames.len() - i,
            {
                assert(names[i as int] == rutg.tnames[i as int]@);
                match self.upsert_association(&rutg.tnames[i], &rutg.rut_id) {
                    Err(e) => {
                        assert(start.tagging_stops_at(names, rutg.rut_id@, i as int));
                        return Err(e);
                    },
                    Ok(_) => {},
                }
                i = i + 1;
            }
            assert(start.tagging_stops_at(names, rutg.rut_id@, i as int));
        } else {
            while i < rutg.tnames.len()
                invariant
                    i <= rutg.tnames.len(),
                    self.wf(),
                    names == texts(rutg.tnames@),
                    self@ == start.without_links(names, rutg.rut_id@, i as int),
                decreases rutg.tnames.len() - i,
            {
                assert(names[i as int] == rutg.tnames[i as int]@);
                self.remove_association(&rutg.tnames[i], &rutg.rut_id);
                i = i + 1;
            }
        }
        Ok(Msg::new(201, "Done"))
    }
    /// Creates a tag or reads one, as the action of the request says.
    pub fn check_tag(&mut self, tg: CheckTag) -> (res: Result<TagMsg, ServiceError>)
        requires
            old(self).wf(),
        ensures
            final(self).wf(),
            old(self)@.tag_checked(tg, final(self)@, res),
    {
        let at = self.find_tag(&tg.tname);
        proof {
            lemma_first_index(self@.tags, tag_named(tg.tname@), at as int);
        }
        if same_text(trim(tg.action.as_str()), "POST") {
            if at < self.tags.len() {
                return Err(ServiceError::StoreFailure);
            }
            let tag = Tag::new(tg.tname);
            let copy = tag.clone();
            self.tags.push(tag);
            proof {
                assert(self@.tags =~= old(self)@.tags.push(copy@));
                lemma_tag_ensured(old(self)@, tg.tname@);
            }
            Ok(TagMsg { status: 200, message: "Added".to_owned(), tag: copy })
        } else if at < self.tags.len() {
            Ok(TagMsg { status: 200, message: "Get".to_owned(), tag: self.tags[at].clone() })
        } else {
            Err(ServiceError::NotFound)
        }
    }

    /// Replaces the description of a tag: its introduction, its logo and
    /// the name of its parent.
    pub fn update_tag(&mut self, tg: UpdateTag) -> (res: Result<TagMsg, ServiceError>)
        requires
            old(self).wf(),
        ensures
            final(self).wf(),
            old(self)@.tag_described(tg, final(self)@, res),
    {
        let at = self.find_tag(&tg.tname);
        proof {
            lemma_first_index(self@.tags, tag_named(tg.tname@), at as int);
        }
        if at >= self.tags.len() {
            return Err(ServiceError::NotFound);
        }
        let tag = self.tags[at].described(tg);
        let copy = tag.clone();
        self.tags.set(at, tag);
        proof {
            assert(self@.tags =~= old(self)@.tags.map_values(described_on(tg)));
            lemma_tags_changed(old(self)@, described_on(tg));
        }
        Ok(TagMsg { status: 201, message: "Updated".to_owned(), tag: copy })
    }
}

} // verus!
