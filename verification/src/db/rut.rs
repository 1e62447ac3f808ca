//! Requests about single ruts: submission, lookup, edits and stars.

use vstd::prelude::*;
use crate::clock::now_micros;
use crate::db::select::{
    any_row, first_index, lemma_distinct_map, lemma_distinct_push, lemma_distinct_remove, lemma_filter_out_one,
    lemma_first_index,
};
use crate::db::store::{
    rut_star_of, rut_with_id, rut_with_slug, rut_with_url, same_rut, same_rut_star, Store, StoreView,
};
use crate::errors::{fails, ServiceError};
use crate::ident::{fresh_id, gen_slug};
use crate::model::msg::{replies, Msg, RutMsg};
use crate::model::rut::{CreateRut, QueryRut, Rut, RutView, StarOrRut, StarRut, StarRutStatus, StarRutView, UpdateRut};
use crate::text::{trim, trimmed};

verus! {

/// The change that a star or its removal makes to the ruts: the rut with the
/// given id has its star counter moved and its vote recomputed.
pub open spec fn stars_moved_on(rut_id: Seq<char>, delta: int) -> spec_fn(RutView) -> RutView {
    |r: RutView| if r.id == rut_id { r.with_stars_moved(delta) } else { r }
}

/// The change that an edit makes to the ruts.
pub open spec fn edited_on(edit: UpdateRut, now: int) -> spec_fn(RutView) -> RutView {
    |r: RutView| if r.id == edit.id@ { r.edited(edit, now) } else { r }
}

/// Every star but those of the given user on the given rut.
pub open spec fn not_rut_star_of(uname: Seq<char>, rut_id: Seq<char>) -> spec_fn(StarRutView) -> bool {
    |s: StarRutView| !(s.uname == uname && s.rut_id == rut_id)
}

/// The slug of a new rut with the given id.
pub open spec fn rut_slug(id: Seq<char>) -> Seq<char> {
    "r"@ + seq!['-'] + id
}

impl StoreView {
    /// Whether a submission with this URL is a duplicate: the URL is not
    /// blank and a rut has it already.
    pub open spec fn url_taken(self, url: Seq<char>) -> bool {
        trimmed(url).len() > 0 && any_row(self.ruts, rut_with_url(url))
    }

    /// The first rut with the given id.
    pub open spec fn rut_by_id(self, id: Seq<char>) -> RutView {
        self.ruts[first_index(self.ruts, rut_with_id(id))]
    }

    /// The first rut with the given slug.
    pub open spec fn rut_by_slug(self, slug: Seq<char>) -> RutView {
        self.ruts[first_index(self.ruts, rut_with_slug(slug))]
    }

    /// The first rut with the given URL.
    pub open spec fn rut_by_url(self, url: Seq<char>) -> RutView {
        self.ruts[first_index(self.ruts, rut_with_url(url))]
    }

    /// This store with one more rut.
    pub open spec fn with_rut(self, rut: RutView) -> StoreView {
        StoreView { ruts: self.ruts.push(rut), ..self }
    }

    /// This store after an edit of a rut.
    pub open spec fn with_rut_edited(self, edit: UpdateRut, now: int) -> StoreView {
        StoreView { ruts: self.ruts.map_values(edited_on(edit, now)), ..self }
    }

    /// This store after a star on a rut: the star is recorded, the star
    /// counter of the rut is one higher and its vote recomputed.
    pub open spec fn with_rut_star(self, star: StarRutView) -> StoreView {
        StoreView {
            starruts: self.starruts.push(star),
            ruts: self.ruts.map_values(stars_moved_on(star.rut_id, 1)),
            ..self
        }
    }

    /// This store after the removal of a star: the stars of the user on the
    /// rut are gone, the star counter of the rut is one lower and its vote
    /// recomputed.
    pub open spec fn without_rut_star(self, uname: Seq<char>, rut_id: Seq<char>) -> StoreView {
        StoreView {
            starruts: self.starruts.filter(not_rut_star_of(uname, rut_id)),
            ruts: self.ruts.map_values(stars_moved_on(rut_id, -1)),
            ..self
        }
    }

    /// What a submission leads to, with the id, slug and time that the new
    /// rut would get. A URL that is taken gives status 422 and the first rut
    /// that has it; an id that is taken is a failure of the store; in both
    /// cases nothing changes. Else the rut is added and returned with
    /// status 201.
    pub open spec fn submitted(
        self,
        new_rut: CreateRut,
        id: Seq<char>,
        slug: Seq<char>,
        now: int,
        after: StoreView,
        res: Result<RutMsg, ServiceError>,
    ) -> bool {
        if self.url_taken(new_rut.url@) {
            &&& after == self
            &&& res matches Ok(msg)
            &&& msg.status == 422
            &&& msg.message@ == "Existing"@
            &&& msg.rut@ == self.rut_by_url(new_rut.url@)
        } else if self.has_rut(id) {
            &&& after == self
            &&& fails(res, ServiceError::StoreFailure)
        } else {
            &&& after == self.with_rut(RutView::created(id, slug, new_rut, now))
            &&& res matches Ok(msg)
            &&& msg.status == 201
            &&& msg.message@ == "Created"@
            &&& msg.rut@ == RutView::created(id, slug, new_rut, now)
        }
    }

    /// What an edit at time `now` leads to. Where no rut has the id, the
    /// rut is not found and nothing changes. Else the rut is edited and
    /// returned with status 201.
    pub open spec fn updated(
        self,
        edit: UpdateRut,
        now: int,
        after: StoreView,
        res: Result<RutMsg, ServiceError>,
    ) -> bool {
        if !self.has_rut(edit.id@) {
            &&& after == self
            &&& fails(res, ServiceError::NotFound)
        } else {
            &&& after == self.with_rut_edited(edit, now)
            &&& res matches Ok(msg)
            &&& msg.status == 201
            &&& msg.message@ == "Updated"@
            &&& msg.rut@ == self.rut_by_id(edit.id@).edited(edit, now)
        }
    }

    /// The star that a request records.
    pub open spec fn rut_star_row(act: StarOrRut, star_id: Seq<char>, now: int) -> StarRutView {
        StarRutView { id: star_id, uname: act.uname@, rut_id: act.rut_id@, star_at: now, note: act.note@ }
    }

    /// What a request to star or unstar a rut leads to, with the id and time
    /// that a new star would get.
    ///
    /// An action other than 0 and 1 is answered with status 400. For the
    /// two actions, a rut that does not exist is not found. Starring a rut
    /// that the user has starred, and unstarring one that the user has not,
    /// change nothing and are answered like the first time. Else the star is
    /// recorded or removed, and the star counter and the vote of the rut
    /// follow; where they would leave their columns, the store fails and
    /// nothing changes.
    pub open spec fn rut_star_moved(
        self,
        act: StarOrRut,
        star_id: Seq<char>,
        now: int,
        after: StoreView,
        res: Result<Msg, ServiceError>,
    ) -> bool {
        if act.action != 0 && act.action != 1 {
            after == self && replies(res, 400, "unstar"@)
        } else if !self.has_rut(act.rut_id@) {
            after == self && fails(res, ServiceError::NotFound)
        } else if act.action == 1 {
            if self.rut_starred(act.uname@, act.rut_id@) {
                after == self && replies(res, 200, "star"@)
            } else if !self.rut_by_id(act.rut_id@).with_stars_moved(1).storable() {
                after == self && fails(res, ServiceError::StoreFailure)
            } else {
                &&& after == self.with_rut_star(Self::rut_star_row(act, star_id, now))
                &&& replies(res, 200, "star"@)
            }
        } else {
            if !self.rut_starred(act.uname@, act.rut_id@) {
                after == self && replies(res, 200, "unstar"@)
            } else if !self.rut_by_id(act.rut_id@).with_stars_moved(-1).storable() {
                after == self && fails(res, ServiceError::StoreFailure)
            } else {
                &&& after == self.without_rut_star(act.uname@, act.rut_id@)
                &&& replies(res, 200, "unstar"@)
            }
        }
    }
}

impl Store {
    /// Submits a rut under the given id and slug at time `now`.
    pub fn create_rut_as(&mut self, new_rut: CreateRut, id: String, slug: String, now: i64) -> (res: Result<
        RutMsg,
        ServiceError,
    >)
        requires
            old(self).wf(),
        ensures
            final(self).wf(),
            old(self)@.submitted(new_rut, id@, slug@, now as int, final(self)@, res),
    {
        if !trim(new_rut.url.as_str()).is_empty() {
            let at = self.find_rut_by_url(&new_rut.url);
            proof {
                lemma_first_index(self@.ruts, rut_with_url(new_rut.url@), at as int);
            }
            if at < self.ruts.len() {
                return Ok(RutMsg { status: 422, message: "Existing".to_owned(), rut: self.ruts[at].clone() });
            }
        }
        let at = self.find_rut(&id);
        proof {
            lemma_first_index(self@.ruts, rut_with_id(id@), at as int);
        }
        if at < self.ruts.len() {
            return Err(ServiceError::StoreFailure);
        }
        let rut = Rut::new(id, slug, new_rut, now);
        let copy = rut.clone();
        self.ruts.push(rut);
        proof {
            assert(self@.ruts =~= old(self)@.ruts.push(copy@));
            lemma_distinct_push(old(self)@.ruts, same_rut(), copy@);
        }
        Ok(RutMsg { status: 201, message: "Created".to_owned(), rut: copy })
    }

    /// Submits a rut. The rut gets a new random id, the slug made from that
    /// id, and the current time as the time of its creation and of its last
    /// edit.
    pub fn create_rut(&mut self, new_rut: CreateRut) -> (res: Result<RutMsg, ServiceError>)
        requires
            old(self).wf(),
        ensures
            final(self).wf(),
            exists|id: Seq<char>, now: int| #[trigger]
                old(self)@.submitted(new_rut, id, rut_slug(id), now, final(self)@, res),
    {
        let id = fresh_id();
        let slug = gen_slug("r", id.as_str());
        let now = now_micros();
        let ghost id_view = id@;
        let res = self.create_rut_as(new_rut, id, slug, now);
        assert(old(self)@.submitted(new_rut, id_view, rut_slug(id_view), now as int, self@, res));
        res
    }

    /// Looks up the first rut with the slug of the request.
    pub fn query_rut(&self, rslug: &QueryRut) -> (res: Result<RutMsg, ServiceError>)
        ensures
            !any_row(self@.ruts, rut_with_slug(rslug.rut_slug@)) ==> fails(res, ServiceError::NotFound),
            any_row(self@.ruts, rut_with_slug(rslug.rut_slug@)) ==> (res matches Ok(msg) && msg.status == 200
                && msg.message@ == "Success"@ && msg.rut@ == self@.rut_by_slug(rslug.rut_slug@)),
    {
        let at = self.find_rut_by_slug(&rslug.rut_slug);
        proof {
            lemma_first_index(self@.ruts, rut_with_slug(rslug.rut_slug@), at as int);
        }
        if at < self.ruts.len() {
            Ok(RutMsg { status: 200, message: "Success".to_owned(), rut: self.ruts[at].clone() })
        } else {
            Err(ServiceError::NotFound)
        }
    }

    /// Edits a rut at time `now`.
    pub fn update_rut_at(&mut self, rut: UpdateRut, now: i64) -> (res: Result<RutMsg, ServiceError>)
        requires
            old(self).wf(),
        ensures
            final(self).wf(),
            old(self)@.updated(rut, now as int, final(self)@, res),
    {
        let at = self.find_rut(&rut.id);
        proof {
            lemma_first_index(self@.ruts, rut_with_id(rut.id@), at as int);
        }
        if at >= self.ruts.len() {
            return Err(ServiceError::NotFound);
        }
        let edited = self.ruts[at].edited(rut, now);
        let copy = edited.clone();
        self.ruts.set(at, edited);
        proof {
            assert(self@.ruts =~= old(self)@.ruts.map_values(edited_on(rut, now as int)));
            lemma_distinct_map(old(self)@.ruts, same_rut(), edited_on(rut, now as int));
        }
        Ok(RutMsg { status: 201, message: "Updated".to_owned(), rut: copy })
    }

    /// Edits a rut. The current time becomes the time of its last edit.
    pub fn update_rut(&mut self, rut: UpdateRut) -> (res: Result<RutMsg, ServiceError>)
        requires
            old(self).wf(),
        ensures
            final(self).wf(),
            exists|now: int| #[trigger] old(self)@.updated(rut, now, final(self)@, res),
    {
        let now = now_micros();
        let res = self.update_rut_at(rut, now);
        assert(old(self)@.updated(rut, now as int, self@, res));
        res
    }

    /// Stars or unstars a rut; a new star gets the id `star_id` and the time
    /// `now`.
    pub fn star_or_rut_as(&mut self, act: StarOrRut, star_id: String, now: i64) -> (res: Result<
        Msg,
        ServiceError,
    >)
        requires
            old(self).wf(),
        ensures
            final(self).wf(),
            old(self)@.rut_star_moved(act, star_id@, now as int, final(self)@, res),
    {
        if act.action != 0 && act.action != 1 {
            return Ok(Msg::new(400, "unstar"));
        }
        let at = self.find_rut(&act.rut_id);
        let star_at = self.find_rut_star(&act.uname, &act.rut_id);
        proof {
            lemma_first_index(self@.ruts, rut_with_id(act.rut_id@), at as int);
            lemma_first_index(self@.starruts, rut_star_of(act.uname@, act.rut_id@), star_at as int);
        }
        if at >= self.ruts.len() {
            return Err(ServiceError::NotFound);
        }
        if act.action == 1 {
            if star_at < self.starruts.len() {
                return Ok(Msg::new(200, "star"));
            }
            match self.ruts[at].with_stars_moved(true) {
                None => Err(ServiceError::StoreFailure),
                Some(rut) => {
                    let star = StarRut {
                        id: star_id,
                        uname: act.uname,
                        rut_id: act.rut_id,
                        star_at: now,
                        note: act.note,
                    };
                    let ghost star_view = star@;
                    self.starruts.push(star);
                    self.ruts.set(at, rut);
                    proof {
                        assert(self@.starruts =~= old(self)@.starruts.push(star_view));
                        assert(self@.ruts =~= old(self)@.ruts.map_values(stars_moved_on(act.rut_id@, 1)));
                        lemma_distinct_push(old(self)@.starruts, same_rut_star(), star_view);
                        lemma_distinct_map(old(self)@.ruts, same_rut(), stars_moved_on(act.rut_id@, 1));
                    }
                    Ok(Msg::new(200, "star"))
                },
            }
        } else {
            if star_at >= self.starruts.len() {
                return Ok(Msg::new(200, "unstar"));
            }
            match self.ruts[at].with_stars_moved(false) {
                None => Err(ServiceError::StoreFailure),
                Some(rut) => {
                    self.starruts.remove(star_at);
                    self.ruts.set(at, rut);
                    proof {
                        lemma_filter_out_one(
                            old(self)@.starruts,
                            not_rut_star_of(act.uname@, act.rut_id@),
                            star_at as int,
                        );
                        assert(self@.starruts =~= old(self)@.starruts.remove(star_at as int));
                        assert(self@.ruts =~= old(self)@.ruts.map_values(stars_moved_on(act.rut_id@, -1)));
                        lemma_distinct_remove(old(self)@.starruts, same_rut_star(), star_at as int);
                        lemma_distinct_map(old(self)@.ruts, same_rut(), stars_moved_on(act.rut_id@, -1));
                    }
                    Ok(Msg::new(200, "unstar"))
                },
            }
        }
    }

    /// Stars or unstars a rut. A new star gets a new random id and the
    /// current time.
    pub fn star_or_rut(&mut self, act: StarOrRut) -> (res: Result<Msg, ServiceError>)
        requires
            old(self).wf(),
        ensures
            final(self).wf(),
            exists|star_id: Seq<char>, now: int| #[trigger]
                old(self)@.rut_star_moved(act, star_id, now, final(self)@, res),
    {
        let star_id = fresh_id();
        let now = now_micros();
        let ghost id_view = star_id@;
        let res = self.star_or_rut_as(act, star_id, now);
        assert(old(self)@.rut_star_moved(act, id_view, now as int, self@, res));
        res
    }

    /// Tells whether the user has starred the rut: `"star"` where a star of
    /// the user on the rut is recorded, `"unstar"` where none is. The star
    /// counter of the rut is not read.
    pub fn star_rut_status(&self, status: &StarRutStatus) -> (msg: Msg)
        ensures
            msg.says(
                200,
                if self@.rut_starred(status.uname@, status.rut_id@) {
                    "star"@
                } else {
                    "unstar"@
                },
            ),
    {
        let at = self.find_rut_star(&status.uname, &status.rut_id);
        proof {
            lemma_first_index(self@.starruts, rut_star_of(status.uname@, status.rut_id@), at as int);
        }
        if at < self.starruts.len() {
            Msg::new(200, "star")
        } else {
            Msg::new(200, "unstar")
        }
    }
}

} // verus!
