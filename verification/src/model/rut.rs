//! Ruts, the stars that users give them, and the requests about them.

use vstd::prelude::*;
use crate::rank::rut_vote;

verus! {

/// A rut: a curated content collection that can be tagged, starred and ranked.
#[derive(Debug)]
pub struct Rut {
    pub id: String,
    pub title: String,
    pub url: String,
    pub content: String,
    pub create_at: i64,
    pub renew_at: i64,
    pub author_id: String,
    pub uname: String,
    pub credential: String,
    pub slug: String,
    pub item_count: i32,
    pub comment_count: i32,
    pub star_count: i32,
    pub vote: i32,
}

/// The mathematical value of a [`Rut`].
pub struct RutView {
    pub id: Seq<char>,
    pub title: Seq<char>,
    pub url: Seq<char>,
    pub content: Seq<char>,
    pub create_at: int,
    pub renew_at: int,
    pub author_id: Seq<char>,
    pub uname: Seq<char>,
    pub credential: Seq<char>,
    pub slug: Seq<char>,
    pub item_count: int,
    pub comment_count: int,
    pub star_count: int,
    pub vote: int,
}

impl View for Rut {
    type V = RutView;

    open spec fn view(&self) -> RutView {
        RutView {
            id: self.id@,
            title: self.title@,
            url: self.url@,
            content: self.content@,
            create_at: self.create_at as int,
            renew_at: self.renew_at as int,
            author_id: self.author_id@,
            uname: self.uname@,
            credential: self.credential@,
            slug: self.slug@,
            item_count: self.item_count as int,
            comment_count: self.comment_count as int,
            star_count: self.star_count as int,
            vote: self.vote as int,
        }
    }
}

impl RutView {
    /// The stored vote agrees with the counters.
    pub open spec fn vote_settled(self) -> bool {
        self.vote == rut_vote(self.item_count, self.comment_count, self.star_count)
    }

    /// This rut with its star counter moved by `delta` and its vote recomputed.
    pub open spec fn with_stars_moved(self, delta: int) -> RutView {
        RutView {
            star_count: self.star_count + delta,
            vote: rut_vote(self.item_count, self.comment_count, self.star_count + delta),
            ..self
        }
    }

    /// Whether every counter of this value fits its column.
    pub open spec fn storable(self) -> bool {
        &&& crate::rank::fits_counter(self.item_count)
        &&& crate::rank::fits_counter(self.comment_count)
        &&& crate::rank::fits_counter(self.star_count)
        &&& crate::rank::fits_counter(self.vote)
    }

    /// This rut after an edit at time `now`.
    pub open spec fn edited(self, edit: UpdateRut, now: int) -> RutView {
        RutView {
            title: edit.title@,
            url: edit.url@,
            content: edit.content@,
            author_id: edit.author_id@,
            credential: edit.credential@,
            renew_at: now,
            ..self
        }
    }

    /// The rut that a submission creates: no links, comments or stars yet.
    pub open spec fn created(id: Seq<char>, slug: Seq<char>, new_rut: CreateRut, now: int) -> RutView {
        RutView {
            id,
            title: new_rut.title@,
            url: new_rut.url@,
            content: new_rut.content@,
            create_at: now,
            renew_at: now,
            author_id: new_rut.author_id@,
            uname: new_rut.uname@,
            credential: new_rut.credential@,
            slug,
            item_count: 0,
            comment_count: 0,
            star_count: 0,
            vote: 0,
        }
    }
}

impl Clone for Rut {
    fn clone(&self) -> (copy: Self)
        ensures
            copy == *self,
    {
        Rut {
            id: self.id.clone(),
            title: self.title.clone(),
            url: self.url.clone(),
            content: self.content.clone(),
            create_at: self.create_at,
            renew_at: self.renew_at,
            author_id: self.author_id.clone(),
            uname: self.uname.clone(),
            credential: self.credential.clone(),
            slug: self.slug.clone(),
            item_count: self.item_count,
            comment_count: self.comment_count,
            star_count: self.star_count,
            vote: self.vote,
        }
    }
}

impl Rut {
    /// Builds the rut that a submission creates at time `now`, under the
    /// given identifier and slug.
    pub fn new(id: String, slug: String, new_rut: CreateRut, now: i64) -> (rut: Rut)
        ensures
            rut@ == RutView::created(id@, slug@, new_rut, now as int),
            rut@.vote_settled(),
    {
        Rut {
            id,
            title: new_rut.title,
            url: new_rut.url,
            content: new_rut.content,
            create_at: now,
            renew_at: now,
            author_id: new_rut.author_id,
            uname: new_rut.uname,
            credential: new_rut.credential,
            slug,
            item_count: 0,
            comment_count: 0,
            star_count: 0,
            vote: 0,
        }
    }
}

impl Rut {
    /// This rut with one star more (`up`) or one star less, and its vote
    /// recomputed; `None` when a counter would leave its column.
    pub fn with_stars_moved(&self, up: bool) -> (moved: Option<Rut>)
        ensures
            match moved {
                Some(rut) => rut@ == self@.with_stars_moved(if up { 1int } else { -1int }) && rut@.storable(),
                None => !self@.with_stars_moved(if up { 1int } else { -1int }).storable(),
            },
    {
        let stars = if up {
            if self.star_count == i32::MAX {
                return None;
            }
            self.star_count + 1
        } else {
            if self.star_count == i32::MIN {
                return None;
            }
            self.star_count - 1
        };
        match crate::rank::checked_rut_vote(self.item_count, self.comment_count, stars) {
            Some(vote) => {
                let mut rut = self.clone();
                rut.star_count = stars;
                rut.vote = vote;
                Some(rut)
            },
            None => None,
        }
    }

    /// This rut after an edit at time `now`.
    pub fn edited(&self, edit: UpdateRut, now: i64) -> (rut: Rut)
        ensures
            rut@ == self@.edited(edit, now as int),
    {
        let mut rut = self.clone();
        rut.title = edit.title;
        rut.url = edit.url;
        rut.content = edit.content;
        rut.author_id = edit.author_id;
        rut.credential = edit.credential;
        rut.renew_at = now;
        rut
    }
}

/// Request to submit a new rut.
#[derive(Debug)]
pub struct CreateRut {
    pub title: String,
    pub url: String,
    pub content: String,
    pub uname: String,
    pub author_id: String,
    pub credential: String,
}

/// Request for the rut with a given slug.
#[derive(Debug)]
pub struct QueryRut {
    pub rut_slug: String,
}

/// Request for a list of ruts, one variant per listing intent.
#[derive(Debug)]
pub enum QueryRuts {
    /// The global index; the payload is not read.
    Index(String),
    /// Ruts of a user: user name, mode (`"create"` for the ruts the user
    /// submitted, anything else for the ruts the user starred), page.
    UserID(String, String, i32),
    /// Ruts that collect an item: item id, page.
    ItemID(String, i32),
    /// Ruts under a tag: tag name, page.
    TagID(String, i32),
    /// Keyword search on titles: keyword, scope (`"user"`, `"tag"`,
    /// `"item"` or anything else for none), the id that the scope refers
    /// to, page.
    KeyID(String, String, String, i32),
}

/// Request to edit a rut.
#[derive(Debug)]
pub struct UpdateRut {
    pub id: String,
    pub title: String,
    pub url: String,
    pub content: String,
    pub author_id: String,
    pub credential: String,
}

/// A star that a user gave to a rut.
#[derive(Debug)]
pub struct StarRut {
    pub id: String,
    pub uname: String,
    pub rut_id: String,
    pub star_at: i64,
    pub note: String,
}

/// The mathematical value of a [`StarRut`].
pub struct StarRutView {
    pub id: Seq<char>,
    pub uname: Seq<char>,
    pub rut_id: Seq<char>,
    pub star_at: int,
    pub note: Seq<char>,
}

impl View for StarRut {
    type V = StarRutView;

    open spec fn view(&self) -> StarRutView {
        StarRutView {
            id: self.id@,
            uname: self.uname@,
            rut_id: self.rut_id@,
            star_at: self.star_at as int,
            note: self.note@,
        }
    }
}

impl Clone for StarRut {
    fn clone(&self) -> (copy: Self)
        ensures
            copy == *self,
    {
        StarRut {
            id: self.id.clone(),
            uname: self.uname.clone(),
            rut_id: self.rut_id.clone(),
            star_at: self.star_at,
            note: self.note.clone(),
        }
    }
}

/// Request to star (`action` 1) or unstar (`action` 0) a rut.
#[derive(Debug)]
pub struct StarOrRut {
    pub rut_id: String,
    pub uname: String,
    pub note: String,
    pub action: u8,
}

/// Request for whether a user has starred a rut.
#[derive(Debug)]
pub struct StarRutStatus {
    pub uname: String,
    pub rut_id: String,
}

/// The link that puts an item into a rut.
#[derive(Debug)]
pub struct Collect {
    pub id: String,
    pub rut_id: String,
    pub item_id: String,
    pub collect_at: i64,
}

/// The mathematical value of a [`Collect`].
pub struct CollectView {
    pub id: Seq<char>,
    pub rut_id: Seq<char>,
    pub item_id: Seq<char>,
    pub collect_at: int,
}

impl View for Collect {
    type V = CollectView;

    open spec fn view(&self) -> CollectView {
        CollectView {
            id: self.id@,
            rut_id: self.rut_id@,
            item_id: self.item_id@,
            collect_at: self.collect_at as int,
        }
    }
}

impl Clone for Collect {
    fn clone(&self) -> (copy: Self)
        ensures
            copy == *self,
    {
        Collect {
            id: self.id.clone(),
            rut_id: self.rut_id.clone(),
            item_id: self.item_id.clone(),
            collect_at: self.collect_at,
        }
    }
}

} // verus!
