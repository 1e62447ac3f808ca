//! The records of the store, the requests against it and the answers.

pub mod msg;
pub mod rut;
pub mod tag;
pub mod user;

use vstd::prelude::*;
use vstd::utf8::encode_utf8;
use crate::text::{trim, trimmed};

verus! {

/// What `regex::Regex::new` makes of `pattern` and what `Regex::is_match`
/// of the result then says of `text`: `None` where the pattern is refused,
/// else whether some part of the text matches it.
pub uninterp spec fn regex_search(pattern: Seq<char>, text: Seq<char>) -> Option<bool>;

/// Compiles `pattern` with `regex::Regex::new` and asks `Regex::is_match`
/// whether `text` has a match; `None` where the pattern is refused. The
/// answer is named, not stated: nothing here says which texts a pattern
/// matches.
#[verifier::external_body]
pub(crate) fn pattern_search(pattern: &str, text: &str) -> (found: Option<bool>)
    ensures
        found == regex_search(pattern@, text@),
{
    match regex::Regex::new(pattern) {
        Ok(re) => Some(re.is_match(text)),
        Err(_) => None,
    }
}

/// Whether a search found a match. A pattern that was refused accepts
/// nothing.
pub open spec fn accepted(found: Option<bool>) -> bool {
    found == Some(true)
}

/// Decides whether a search found a match.
pub fn accept(found: Option<bool>) -> (ok: bool)
    ensures
        ok == accepted(found),
{
    match found {
        Some(hit) => hit,
        None => false,
    }
}

/// The pattern of a user name: 3 to 42 word characters or hyphens.
pub const NAME_PATTERN: &'static str = r"^[\w-]{3,42}$";

/// The pattern of a password: 8 to 18 word characters or signs out of
/// `#@~%^$&*-`.
pub const PSW_PATTERN: &'static str = r"^[\w#@~%^$&*-]{8,18}$";

/// The pattern of a URL: the scheme `http` or `https`, a host, and after it
/// as far as present a port and a path.
pub const URL_PATTERN: &'static str = r"^(https?)://([^/:]+)(:[0-9]+)?(/.*)?$";

/// Whether `text` can be a user name.
pub fn re_test_name(text: &str) -> (ok: bool)
    ensures
        ok == accepted(regex_search(NAME_PATTERN@, text@)),
{
    accept(pattern_search(NAME_PATTERN, text))
}

/// Whether `text` can be a password.
pub fn re_test_psw(text: &str) -> (ok: bool)
    ensures
        ok == accepted(regex_search(PSW_PATTERN@, text@)),
{
    accept(pattern_search(PSW_PATTERN, text))
}

/// Whether `text` can be a URL.
pub fn re_test_url(text: &str) -> (ok: bool)
    ensures
        ok == accepted(regex_search(URL_PATTERN@, text@)),
{
    accept(pattern_search(URL_PATTERN, text))
}

/// The length in bytes of `text` without the white space around it.
pub open spec fn trimmed_len(text: Seq<char>) -> nat {
    encode_utf8(trimmed(text)).len()
}

/// Whether the length in bytes of `text`, the white space around it set
/// aside, lies between `min` and `max`.
pub fn test_len_limit(text: &str, min: usize, max: usize) -> (ok: bool)
    ensures
        ok == (min <= trimmed_len(text@) <= max),
{
    let l = trim(text).as_bytes().len();
    l >= min && l <= max
}

/// The longest title.
pub const TITLE_LEN: usize = 256;

/// The longest URL.
pub const URL_LEN: usize = 256;

/// The longest identifier.
pub const UIID_LEN: usize = 32;

/// The longest tag name.
pub const TAG_LEN: usize = 42;

/// The longest short input, such as a category.
pub const ST_LEN: usize = 16;

/// The longest input of middle length, such as a location.
pub const MID_LEN: usize = 32;

/// The longest of the longer inputs.
pub const LG_LEN: usize = 64;

/// Rows on one page of a paged listing, and the fixed limit of the others.
pub const PER_PAGE: i32 = 20;

/// How many tag names a listing of the tags of a rut, of an item or of a
/// parent tag holds at most.
pub const TAGS_PER_LIST: usize = 10;

/// How many tag names the global index of tags holds at most.
pub const TAGS_ON_INDEX: usize = 16;

/// How many tags one user may have starred at a time, unless the store was
/// made with another limit.
pub const TAG_STAR_CAP: usize = 42;

} // verus!
