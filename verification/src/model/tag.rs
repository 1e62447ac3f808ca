//! Tags, their links to ruts and items, the stars that users give them, and
//! the requests about them.

use vstd::prelude::*;
use crate::rank::{fits_counter, tag_vote};

verus! {

/// A tag. Its name is its key.
#[derive(Debug)]
pub struct Tag {
    pub id: String,
    pub tname: String,
    pub intro: String,
    pub logo: String,
    /// Name of the parent tag; empty when there is none.
    pub pname: String,
    pub item_count: i32,
    pub rut_count: i32,
    pub etc_count: i32,
    pub star_count: i32,
    pub vote: i32,
}

/// The mathematical value of a [`Tag`].
pub struct TagView {
    pub id: Seq<char>,
    pub tname: Seq<char>,
    pub intro: Seq<char>,
    pub logo: Seq<char>,
    pub pname: Seq<char>,
    pub item_count: int,
    pub rut_count: int,
    pub etc_count: int,
    pub star_count: int,
    pub vote: int,
}

impl View for Tag {
    type V = TagView;

    open spec fn view(&self) -> TagView {
        TagView {
            id: self.id@,
            tname: self.tname@,
            intro: self.intro@,
            logo: self.logo@,
            pname: self.pname@,
            item_count: self.item_count as int,
            rut_count: self.rut_count as int,
            etc_count: self.etc_count as int,
            star_count: self.star_count as int,
            vote: self.vote as int,
        }
    }
}

impl TagView {
    /// The tag that is created for a name not seen before: no description,
    /// no parent, every counter at zero.
    pub open spec fn fresh(tname: Seq<char>) -> TagView {
        TagView {
            id: tname,
            tname,
            intro: Seq::empty(),
            logo: Seq::empty(),
            pname: Seq::empty(),
            item_count: 0,
            rut_count: 0,
            etc_count: 0,
            star_count: 0,
            vote: 0,
        }
    }

    /// The stored vote agrees with the counters.
    pub open spec fn vote_settled(self) -> bool {
        self.vote == tag_vote(self.rut_count, self.star_count)
    }

    /// This tag with one more rut under it and its vote recomputed.
    pub open spec fn with_rut_linked(self) -> TagView {
        TagView {
            rut_count: self.rut_count + 1,
            vote: tag_vote(self.rut_count + 1, self.star_count),
            ..self
        }
    }

    /// This tag with its star counter moved by `delta` and its vote recomputed.
    pub open spec fn with_stars_moved(self, delta: int) -> TagView {
        TagView {
            star_count: self.star_count + delta,
            vote: tag_vote(self.rut_count, self.star_count + delta),
            ..self
        }
    }

    /// Whether every counter of this value fits its column.
    pub open spec fn storable(self) -> bool {
        &&& fits_counter(self.item_count)
        &&& fits_counter(self.rut_count)
        &&& fits_counter(self.etc_count)
        &&& fits_counter(self.star_count)
        &&& fits_counter(self.vote)
    }

    /// This tag with its description replaced.
    pub open spec fn described(self, edit: UpdateTag) -> TagView {
        TagView { intro: edit.intro@, logo: edit.logo@, pname: edit.pname@, ..self }
    }
}

impl Clone for Tag {
    fn clone(&self) -> (copy: Self)
        ensures
            copy == *self,
    {
        Tag {
            id: self.id.clone(),
            tname: self.tname.clone(),
            intro: self.intro.clone(),
            logo: self.logo.clone(),
            pname: self.pname.clone(),
            item_count: self.item_count,
            rut_count: self.rut_count,
            etc_count: self.etc_count,
            star_count: self.star_count,
            vote: self.vote,
        }
    }
}

impl Tag {
    /// The tag that is created for a name not seen before.
    pub fn new(tname: String) -> (tag: Self)
        ensures
            tag@ == TagView::fresh(tname@),
            tag@.vote_settled(),
    {
        Tag {
            id: tname.clone(),
            tname,
            intro: String::new(),
            logo: String::new(),
            pname: String::new(),
            item_count: 0,
            rut_count: 0,
            etc_count: 0,
            star_count: 0,
            vote: 0,
        }
    }
}

impl Tag {
    /// This tag with one more rut under it and its vote recomputed; `None`
    /// when a counter would leave its column.
    pub fn with_rut_linked(&self) -> (linked: Option<Tag>)
        ensures
            match linked {
                Some(tag) => tag@ == self@.with_rut_linked() && tag@.storable(),
                None => !self@.with_rut_linked().storable(),
            },
    {
        if self.rut_count == i32::MAX {
            return None;
        }
        let ruts = self.rut_count + 1;
        match crate::rank::checked_tag_vote(ruts, self.star_count) {
            Some(vote) => {
                let mut tag = self.clone();
                tag.rut_count = ruts;
                tag.vote = vote;
                Some(tag)
            },
            None => None,
        }
    }

    /// This tag with one star more (`up`) or one star less, and its vote
    /// recomputed; `None` when a counter would leave its column.
    pub fn with_stars_moved(&self, up: bool) -> (moved: Option<Tag>)
        ensures
            match moved {
                Some(tag) => tag@ == self@.with_stars_moved(if up { 1int } else { -1int }) && tag@.storable(),
                None => !self@.with_stars_moved(if up { 1int } else { -1int }).storable(),
            },
    {
        let stars = if up {
            if self.star_count == i32::MAX {
                return None;
            }
            self.star_count + 1
        } else {
            if self.star_count == i32::MIN {
                return None;
            }
            self.star_count - 1
        };
        match crate::rank::checked_tag_vote(self.rut_count, stars) {
            Some(vote) => {
                let mut tag = self.clone();
                tag.star_count = stars;
                tag.vote = vote;
                Some(tag)
            },
            None => None,
        }
    }

    /// This tag with its description replaced.
    pub fn described(&self, edit: UpdateTag) -> (tag: Tag)
        ensures
            tag@ == self@.described(edit),
    {
        let mut tag = self.clone();
        tag.intro = edit.intro;
        tag.logo = edit.logo;
        tag.pname = edit.pname;
        tag
    }
}

/// Request to create a tag (`action` `"POST"`) or to read one (anything else).
#[derive(Debug)]
pub struct CheckTag {
    pub tname: String,
    pub action: String,
}

impl Clone for CheckTag {
    fn clone(&self) -> (copy: Self)
        ensures
            copy == *self,
    {
        CheckTag { tname: self.tname.clone(), action: self.action.clone() }
    }
}

/// Request for a list of tag names, one variant per listing intent.
#[derive(Debug)]
pub enum QueryTags {
    /// Tags of a rut, most applied first.
    RutID(String),
    /// Tags of an item, most applied first.
    ItemID(String),
    /// Child tags of a tag, highest vote first.
    TagID(String),
    /// Tags that a user starred, latest star first.
    UserID(String),
    /// The global index, highest vote first; the payload is not read.
    Index(String),
}

impl Clone for QueryTags {
    fn clone(&self) -> (copy: Self)
        ensures
            copy == *self,
    {
        match self {
            QueryTags::RutID(r) => QueryTags::RutID(r.clone()),
            QueryTags::ItemID(i) => QueryTags::ItemID(i.clone()),
            QueryTags::TagID(t) => QueryTags::TagID(t.clone()),
            QueryTags::UserID(u) => QueryTags::UserID(u.clone()),
            QueryTags::Index(x) => QueryTags::Index(x.clone()),
        }
    }
}

/// Request to replace the description of a tag.
#[derive(Debug)]
pub struct UpdateTag {
    pub tname: String,
    pub intro: String,
    pub logo: String,
    pub pname: String,
}

impl Clone for UpdateTag {
    fn clone(&self) -> (copy: Self)
        ensures
            copy == *self,
    {
        UpdateTag {
            tname: self.tname.clone(),
            intro: self.intro.clone(),
            logo: self.logo.clone(),
            pname: self.pname.clone(),
        }
    }
}

/// The link between a tag and a rut, with the number of times it was applied.
#[derive(Debug)]
pub struct TagRut {
    pub id: String,
    pub tname: String,
    pub rut_id: String,
    pub count: i32,
}

/// The mathematical value of a [`TagRut`].
pub struct TagRutView {
    pub id: Seq<char>,
    pub tname: Seq<char>,
    pub rut_id: Seq<char>,
    pub count: int,
}

impl View for TagRut {
    type V = TagRutView;

    open spec fn view(&self) -> TagRutView {
        TagRutView { id: self.id@, tname: self.tname@, rut_id: self.rut_id@, count: self.count as int }
    }
}

impl TagRutView {
    /// The link that the first tagging of a rut creates. Its id is the tag
    /// name and the rut id, joined by a hyphen.
    pub open spec fn first(tname: Seq<char>, rut_id: Seq<char>) -> TagRutView {
        TagRutView { id: tname + seq!['-'] + rut_id, tname, rut_id, count: 1 }
    }

    /// Whether this link joins the given tag and rut.
    pub open spec fn joins(self, tname: Seq<char>, rut_id: Seq<char>) -> bool {
        self.tname == tname && self.rut_id == rut_id
    }

    /// This link applied once more.
    pub open spec fn applied_again(self) -> TagRutView {
        TagRutView { count: self.count + 1, ..self }
    }
}

impl Clone for TagRut {
    fn clone(&self) -> (copy: Self)
        ensures
            copy == *self,
    {
        TagRut {
            id: self.id.clone(),
            tname: self.tname.clone(),
            rut_id: self.rut_id.clone(),
            count: self.count,
        }
    }
}

impl TagRut {
    /// The link that the first tagging of a rut creates.
    pub fn first(tname: &String, rut_id: &String) -> (link: TagRut)
        ensures
            link@ == TagRutView::first(tname@, rut_id@),
    {
        let mut id = tname.clone();
        id.append("-");
        id.append(rut_id.as_str());
        proof {
            reveal_strlit("-");
            assert("-"@ =~= seq!['-']);
        }
        TagRut { id, tname: tname.clone(), rut_id: rut_id.clone(), count: 1 }
    }

    /// This link applied once more; `None` when the count would leave its
    /// column.
    pub fn applied_again(&self) -> (link: Option<TagRut>)
        ensures
            match link {
                Some(l) => l@ == self@.applied_again(),
                None => !fits_counter(self@.count + 1),
            },
    {
        if self.count == i32::MAX {
            return None;
        }
        let mut link = self.clone();
        link.count = self.count + 1;
        Some(link)
    }
}

/// Request to tag (`action` 1) or untag (any other `action`) a rut with a
/// list of tag names.
#[derive(Debug)]
pub struct RutTag {
    pub tnames: Vec<String>,
    pub rut_id: String,
    pub action: u8,
}

impl Clone for RutTag {
    fn clone(&self) -> (copy: Self)
        ensures
            copy.tnames@ == self.tnames@,
            copy.rut_id == self.rut_id,
            copy.action == self.action,
    {
        let mut tnames: Vec<String> = Vec::new();
        let mut i: usize = 0;
        while i < self.tnames.len()
            invariant
                i <= self.tnames.len(),
                tnames@ =~= self.tnames@.take(i as int),
            decreases self.tnames.len() - i,
        {
            tnames.push(self.tnames[i].clone());
            i = i + 1;
        }
        assert(self.tnames@.take(self.tnames.len() as int) =~= self.tnames@);
        RutTag { tnames, rut_id: self.rut_id.clone(), action: self.action }
    }
}

/// A star that a user gave to a tag.
#[derive(Debug)]
pub struct StarTag {
    pub id: String,
    pub uname: String,
    pub tname: String,
    pub star_at: i64,
    pub note: String,
}

/// The mathematical value of a [`StarTag`].
pub struct StarTagView {
    pub id: Seq<char>,
    pub uname: Seq<char>,
    pub tname: Seq<char>,
    pub star_at: int,
    pub note: Seq<char>,
}

impl View for StarTag {
    type V = StarTagView;

    open spec fn view(&self) -> StarTagView {
        StarTagView {
            id: self.id@,
            uname: self.uname@,
            tname: self.tname@,
            star_at: self.star_at as int,
            note: self.note@,
        }
    }
}

impl Clone for StarTag {
    fn clone(&self) -> (copy: Self)
        ensures
            copy == *self,
    {
        StarTag {
            id: self.id.clone(),
            uname: self.uname.clone(),
            tname: self.tname.clone(),
            star_at: self.star_at,
            note: self.note.clone(),
        }
    }
}

/// Request to star (`action` 1) or unstar (`action` 0) a tag.
#[derive(Debug)]
pub struct StarOrTag {
    pub uname: String,
    pub tname: String,
    pub note: String,
    pub action: u8,
}

impl Clone for StarOrTag {
    fn clone(&self) -> (copy: Self)
        ensures
            copy == *self,
    {
        StarOrTag {
            uname: self.uname.clone(),
            tname: self.tname.clone(),
            note: self.note.clone(),
            action: self.action,
        }
    }
}

/// Request for whether a user has starred a tag.
#[derive(Debug)]
pub struct StarTagStatus {
    pub uname: String,
    pub tname: String,
}

impl Clone for StarTagStatus {
    fn clone(&self) -> (copy: Self)
        ensures
            copy == *self,
    {
        StarTagStatus { uname: self.uname.clone(), tname: self.tname.clone() }
    }
}

/// The link between a tag and an item, with the number of times it was applied.
#[derive(Debug)]
pub struct TagItem {
    pub id: String,
    pub tname: String,
    pub item_id: String,
    pub count: i32,
}

/// The mathematical value of a [`TagItem`].
pub struct TagItemView {
    pub id: Seq<char>,
    pub tname: Seq<char>,
    pub item_id: Seq<char>,
    pub count: int,
}

impl View for TagItem {
    type V = TagItemView;

    open spec fn view(&self) -> TagItemView {
        TagItemView { id: self.id@, tname: self.tname@, item_id: self.item_id@, count: self.count as int }
    }
}

impl Clone for TagItem {
    fn clone(&self) -> (copy: Self)
        ensures
            copy == *self,
    {
        TagItem {
            id: self.id.clone(),
            tname: self.tname.clone(),
            item_id: self.item_id.clone(),
            count: self.count,
        }
    }
}

/// The link between a tag and anything that is neither a rut nor an item.
#[derive(Debug)]
pub struct TagEtc {
    pub id: String,
    pub tname: String,
    pub etc_id: String,
}

} // verus!
