//! The answers that the store gives.

use vstd::prelude::*;
use crate::model::rut::{Collect, Rut};
use crate::model::tag::Tag;
use crate::model::user::CheckUser;

verus! {

/// A status and a message.
#[derive(Debug)]
pub struct Msg {
    pub status: i32,
    pub message: String,
}

impl Msg {
    /// An answer with the given status and message.
    pub fn new(status: i32, message: &str) -> (msg: Msg)
        ensures
            msg.status == status,
            msg.message@ == message@,
    {
        Msg { status, message: message.to_owned() }
    }

    /// Whether this answer holds the given status and message.
    pub open spec fn says(self, status: int, message: Seq<char>) -> bool {
        self.status == status && self.message@ == message
    }
}

/// Whether `res` is an answer with the given status and message.
pub open spec fn replies<E>(res: Result<Msg, E>, status: int, message: Seq<char>) -> bool {
    res matches Ok(msg) && msg.says(status, message)
}

/// An answer to a login or to a request for a user: the token, the time of
/// its expiry and the user.
#[derive(Debug)]
pub struct LoginMsg {
    pub status: i32,
    pub message: String,
    pub token: String,
    pub exp: i32,
    pub user: CheckUser,
}

/// An answer that holds one rut.
#[derive(Debug)]
pub struct RutMsg {
    pub status: i32,
    pub message: String,
    pub rut: Rut,
}

/// An answer that holds a list of ruts, and the number of rows that the
/// listing has before it is cut to a page.
#[derive(Debug)]
pub struct RutListMsg {
    pub status: i32,
    pub message: String,
    pub ruts: Vec<Rut>,
    pub count: usize,
}

/// An answer that holds the items collected in a rut.
#[derive(Debug)]
pub struct CollectMsg {
    pub status: i32,
    pub message: String,
    pub rut_id: String,
    pub collects: Vec<Collect>,
}

/// An answer that holds one tag.
#[derive(Debug)]
pub struct TagMsg {
    pub status: i32,
    pub message: String,
    pub tag: Tag,
}

/// An answer that holds a list of tag names and their number.
#[derive(Debug)]
pub struct TagListMsg {
    pub status: i32,
    pub message: String,
    pub tags: Vec<String>,
    pub count: usize,
}

} // verus!
