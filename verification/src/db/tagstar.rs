//! The star ledger of tags: who starred which tag, the limit on the tags
//! that one user may star, and the star counters that follow.

use vstd::prelude::*;
use crate::clock::now_micros;
use crate::db::select::{lemma_distinct_push, lemma_distinct_remove, lemma_filter_out_one, lemma_first_index};
use crate::db::store::{same_tag_star, tag_named, tag_star_by, tag_star_of, Store, StoreView};
use crate::db::tag::lemma_tags_changed;
use crate::errors::{fails, ServiceError};
use crate::ident::fresh_id;
use crate::model::msg::{replies, Msg};
use crate::model::tag::{StarOrTag, StarTag, StarTagStatus, StarTagView, TagView};

verus! {

/// The change that a star or its removal makes to the tags: the tag with the
/// given name has its star counter moved and its vote recomputed.
pub open spec fn tag_stars_moved_on(tname: Seq<char>, delta: int) -> spec_fn(TagView) -> TagView {
    |t: TagView| if t.tname == tname { t.with_stars_moved(delta) } else { t }
}

/// Every star but those of the given user on the given tag.
pub open spec fn not_tag_star_of(uname: Seq<char>, tname: Seq<char>) -> spec_fn(StarTagView) -> bool {
    |s: StarTagView| !(s.uname == uname && s.tname == tname)
}

impl StoreView {
    /// This store after a star on a tag: the star is recorded, the star
    /// counter of the tag is one higher and its vote recomputed.
    pub open spec fn with_tag_star(self, star: StarTagView) -> StoreView {
        StoreView {
            startags: self.startags.push(star),
            tags: self.tags.map_values(tag_stars_moved_on(star.tname, 1)),
            ..self
        }
    }

    /// This store after the removal of a star: the stars of the user on the
    /// tag are gone, the star counter of the tag is one lower and its vote
    /// recomputed.
    pub open spec fn without_tag_star(self, uname: Seq<char>, tname: Seq<char>) -> StoreView {
        StoreView {
            startags: self.startags.filter(not_tag_star_of(uname, tname)),
            tags: self.tags.map_values(tag_stars_moved_on(tname, -1)),
            ..self
        }
    }

    /// The star that a request records.
    pub open spec fn tag_star_row(act: StarOrTag, star_id: Seq<char>, now: int) -> StarTagView {
        StarTagView { id: star_id, uname: act.uname@, tname: act.tname@, star_at: now, note: act.note@ }
    }

    /// Whether the user holds as many stars on tags as one user may.
    pub open spec fn at_tag_star_cap(self, uname: Seq<char>) -> bool {
        self.tag_stars_held(uname) >= self.tag_star_cap
    }

    /// What a request to star or unstar a tag leads to, with the id and time
    /// that a new star would get.
    ///
    /// An action other than 0 and 1 is answered with status 400. A request
    /// to star by a user who holds as many stars on tags as one user may is
    /// answered with status 418, whatever the tag, and changes nothing.
    /// Else a tag that does not exist is not found. Starring a tag that the
    /// user has starred, and unstarring one that the user has not, change
    /// nothing and are answered like the first time. Else the star is
    /// recorded or removed, and the star counter and the vote of the tag
    /// follow; where they would leave their columns, the store fails and
    /// nothing changes.
    pub open spec fn tag_star_moved(
        self,
        act: StarOrTag,
        star_id: Seq<char>,
        now: int,
        after: StoreView,
        res: Result<Msg, ServiceError>,
    ) -> bool {
        if act.action != 0 && act.action != 1 {
            after == self && replies(res, 400, "unstar"@)
        } else if act.action == 1 && self.at_tag_star_cap(act.uname@) {
            after == self && replies(res, 418, "unstar"@)
        } else if !self.has_tag(act.tname@) {
            after == self && fails(res, ServiceError::NotFound)
        } else if act.action == 1 {
            if self.tag_starred(act.uname@, act.tname@) {
                after == self && replies(res, 200, "star"@)
            } else if !self.tag_by_name(act.tname@).with_stars_moved(1).storable() {
                after == self && fails(res, ServiceError::StoreFailure)
            } else {
                &&& after == self.with_tag_star(Self::tag_star_row(act, star_id, now))
                &&& replies(res, 200, "star"@)
            }
        } else {
            if !self.tag_starred(act.uname@, act.tname@) {
                after == self && replies(res, 200, "unstar"@)
            } else if !self.tag_by_name(act.tname@).with_stars_moved(-1).storable() {
                after == self && fails(res, ServiceError::StoreFailure)
            } else {
                &&& after == self.without_tag_star(act.uname@, act.tname@)
                &&& replies(res, 200, "unstar"@)
            }
        }
    }
}

impl Store {
    /// How many tags the user has starred.
    pub fn tag_stars_held(&self, uname: &String) -> (held: usize)
        ensures
            held == self@.tag_stars_held(uname@),
    {
        let mut held: usize = 0;
        let mut i: usize = 0;
        assert(self@.startags.take(0).filter(tag_star_by(uname@)).len() == 0) by {
            reveal(Seq::filter);
        }
        while i < self.startags.len()
            invariant
                i <= self.startags.len(),
                held <= i,
                held == self@.startags.take(i as int).filter(tag_star_by(uname@)).len(),
            decreases self.startags.len() - i,
        {
            proof {
                assert(self@.startags.take(i + 1) =~= self@.startags.take(i as int).push(self@.startags[i as int]));
                self@.startags.take(i as int).lemma_filter_push(self@.startags[i as int], tag_star_by(uname@));
            }
            if self.startags[i].uname == *uname {
                held = held + 1;
            }
            i = i + 1;
        }
        assert(self@.startags.take(self.startags.len() as int) =~= self@.startags);
        held
    }

    /// Stars or unstars a tag; a new star gets the id `star_id` and the time
    /// `now`.
    pub fn star_or_tag_as(&mut self, act: StarOrTag, star_id: String, now: i64) -> (res: Result<
        Msg,
        ServiceError,
    >)
        requires
            old(self).wf(),
        ensures
            final(self).wf(),
            old(self)@.tag_star_moved(act, star_id@, now as int, final(self)@, res),
    {
        if act.action != 0 && act.action != 1 {
            return Ok(Msg::new(400, "unstar"));
        }
        if act.action == 1 && self.tag_stars_held(&act.uname) >= self.tag_star_cap {
            return Ok(Msg::new(418, "unstar"));
        }
        let at = self.find_tag(&act.tname);
        let star_at = self.find_tag_star(&act.uname, &act.tname);
        proof {
            lemma_first_index(self@.tags, tag_named(act.tname@), at as int);
            lemma_first_index(self@.startags, tag_star_of(act.uname@, act.tname@), star_at as int);
        }
        if at >= self.tags.len() {
            return Err(ServiceError::NotFound);
        }
        if act.action == 1 {
            if star_at < self.startags.len() {
                return Ok(Msg::new(200, "star"));
            }
            match self.tags[at].with_stars_moved(true) {
                None => Err(ServiceError::StoreFailure),
                Some(tag) => {
                    let star = StarTag {
                        id: star_id,
                        uname: act.uname,
                        tname: act.tname,
                        star_at: now,
                        note: act.note,
                    };
                    let ghost star_view = star@;
                    self.startags.push(star);
                    self.tags.set(at, tag);
                    proof {
                        assert(self@.startags =~= old(self)@.startags.push(star_view));
                        assert(self@.tags =~= old(self)@.tags.map_values(tag_stars_moved_on(act.tname@, 1)));
                        lemma_distinct_push(old(self)@.startags, same_tag_star(), star_view);
                        lemma_tags_changed(old(self)@, tag_stars_moved_on(act.tname@, 1));
                    }
                    Ok(Msg::new(200, "star"))
                },
            }
        } else {
            if star_at >= self.startags.len() {
                return Ok(Msg::new(200, "unstar"));
            }
            match self.tags[at].with_stars_moved(false) {
                None => Err(ServiceError::StoreFailure),
                Some(tag) => {
                    self.startags.remove(star_at);
                    self.tags.set(at, tag);
                    proof {
                        lemma_filter_out_one(
                            old(self)@.startags,
                            not_tag_star_of(act.uname@, act.tname@),
                            star_at as int,
                        );
                        assert(self@.startags =~= old(self)@.startags.remove(star_at as int));
                        assert(self@.tags =~= old(self)@.tags.map_values(tag_stars_moved_on(act.tname@, -1)));
                        lemma_distinct_remove(old(self)@.startags, same_tag_star(), star_at as int);
                        lemma_tags_changed(old(self)@, tag_stars_moved_on(act.tname@, -1));
                    }
                    Ok(Msg::new(200, "unstar"))
                },
            }
        }
    }

    /// Stars or unstars a tag. A new star gets a new random id and the
    /// current time.
    pub fn star_or_tag(&mut self, act: StarOrTag) -> (res: Result<Msg, ServiceError>)
        requires
            old(self).wf(),
        ensures
            final(self).wf(),
            exists|star_id: Seq<char>, now: int| #[trigger]
                old(self)@.tag_star_moved(act, star_id, now, final(self)@, res),
    {
        let star_id = fresh_id();
        let now = now_micros();
        let ghost id_view = star_id@;
        let res = self.star_or_tag_as(act, star_id, now);
        assert(old(self)@.tag_star_moved(act, id_view, now as int, self@, res));
        res
    }

    /// Tells whether the user has starred the tag: `"star"` where a star of
    /// the user on the tag is recorded, `"unstar"` where none is. The star
    /// counter of the tag is not read.
    pub fn star_tag_status(&self, status: &StarTagStatus) -> (msg: Msg)
        ensures
            msg.says(
                200,
                if self@.tag_starred(status.uname@, status.tname@) {
                    "star"@
                } else {
                    "unstar"@
                },
            ),
    {
        let at = self.find_tag_star(&status.uname, &status.tname);
        proof {
            lemma_first_index(self@.startags, tag_star_of(status.uname@, status.tname@), at as int);
        }
        if at < self.startags.len() {
            Msg::new(200, "star")
        } else {
            Msg::new(200, "unstar")
        }
    }
}

} // verus!
