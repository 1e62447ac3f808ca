//! Users, what they send to sign up, log in and change their data, and the
//! claims of a login token.

use vstd::prelude::*;
use vstd::std_specs::convert::FromSpecImpl;
use crate::clock::{now_micros, now_seconds};

verus! {

/// Who issues the login tokens.
pub const TOKEN_ISSUER: &'static str = "ruthub";

/// What the login tokens are about.
pub const TOKEN_SUBJECT: &'static str = "auth";

/// How long a login token holds, in seconds: five days.
pub const TOKEN_LIFETIME: i64 = 432000;

/// A user, with the password as it is stored.
#[derive(Debug)]
pub struct User {
    pub id: String,
    pub uname: String,
    pub password: String,
    pub join_at: i64,
    pub avatar: String,
    pub email: String,
    pub intro: String,
    pub location: String,
    pub nickname: String,
}

impl User {
    /// What is known of a user who gives only an id and a name: that, and
    /// the current time as the time of joining.
    pub fn new(id: &str, uname: &str) -> (user: CheckUser)
        ensures
            exists|now: int| user@ == #[trigger] CheckUserView::bare(id@, uname@, now),
    {
        let now = now_micros();
        let user = CheckUser::bare(id, uname, now);
        assert(user@ == CheckUserView::bare(id@, uname@, now as int));
        user
    }
}

/// A user to be inserted.
#[derive(Debug)]
pub struct NewUser<'a> {
    pub id: &'a str,
    pub uname: &'a str,
    pub password: &'a str,
    pub join_at: i64,
    pub avatar: &'a str,
    pub email: &'a str,
    pub intro: &'a str,
    pub location: &'a str,
    pub nickname: &'a str,
}

/// What others may know of a user: everything but the password.
#[derive(Debug)]
pub struct CheckUser {
    pub id: String,
    pub uname: String,
    pub join_at: i64,
    pub avatar: String,
    pub email: String,
    pub intro: String,
    pub location: String,
    pub nickname: String,
}

/// The mathematical value of a [`CheckUser`].
pub struct CheckUserView {
    pub id: Seq<char>,
    pub uname: Seq<char>,
    pub join_at: int,
    pub avatar: Seq<char>,
    pub email: Seq<char>,
    pub intro: Seq<char>,
    pub location: Seq<char>,
    pub nickname: Seq<char>,
}

impl View for CheckUser {
    type V = CheckUserView;

    open spec fn view(&self) -> CheckUserView {
        CheckUserView {
            id: self.id@,
            uname: self.uname@,
            join_at: self.join_at as int,
            avatar: self.avatar@,
            email: self.email@,
            intro: self.intro@,
            location: self.location@,
            nickname: self.nickname@,
        }
    }
}

impl CheckUserView {
    /// A user of whom only the id, the name and the time of joining are
    /// known.
    pub open spec fn bare(id: Seq<char>, uname: Seq<char>, join_at: int) -> CheckUserView {
        CheckUserView {
            id,
            uname,
            join_at,
            avatar: Seq::empty(),
            email: Seq::empty(),
            intro: Seq::empty(),
            location: Seq::empty(),
            nickname: Seq::empty(),
        }
    }
}

impl CheckUser {
    /// A user of whom only the id, the name and the time of joining are
    /// known.
    pub fn bare(id: &str, uname: &str, join_at: i64) -> (user: CheckUser)
        ensures
            user@ == CheckUserView::bare(id@, uname@, join_at as int),
    {
        CheckUser {
            id: id.to_owned(),
            uname: uname.to_owned(),
            join_at,
            avatar: String::new(),
            email: String::new(),
            intro: String::new(),
            location: String::new(),
            nickname: String::new(),
        }
    }

    /// The user that the claims of a token speak of, taken to have joined at
    /// `now`.
    pub fn of_claims(claims: Claims, now: i64) -> (user: CheckUser)
        ensures
            user@ == CheckUserView::bare(claims.uid@, claims.uname@, now as int),
    {
        CheckUser {
            id: claims.uid,
            uname: claims.uname,
            join_at: now,
            avatar: String::new(),
            email: String::new(),
            intro: String::new(),
            location: String::new(),
            nickname: String::new(),
        }
    }
}

impl From<User> for CheckUser {
    fn from(user: User) -> (shown: Self) {
        CheckUser {
            id: user.id,
            uname: user.uname,
            join_at: user.join_at,
            avatar: user.avatar,
            email: user.email,
            intro: user.intro,
            location: user.location,
            nickname: user.nickname,
        }
    }
}

impl FromSpecImpl<User> for CheckUser {
    open spec fn obeys_from_spec() -> bool {
        true
    }

    open spec fn from_spec(user: User) -> CheckUser {
        CheckUser {
            id: user.id,
            uname: user.uname,
            join_at: user.join_at,
            avatar: user.avatar,
            email: user.email,
            intro: user.intro,
            location: user.location,
            nickname: user.nickname,
        }
    }
}

impl From<Claims> for CheckUser {
    fn from(claims: Claims) -> (shown: Self)
        ensures
            exists|now: int| shown@ == #[trigger] CheckUserView::bare(claims.uid@, claims.uname@, now),
    {
        let now = now_micros();
        let shown = CheckUser::of_claims(claims, now);
        assert(shown@ == CheckUserView::bare(claims.uid@, claims.uname@, now as int));
        shown
    }
}

impl FromSpecImpl<Claims> for CheckUser {
    open spec fn obeys_from_spec() -> bool {
        false
    }

    open spec fn from_spec(claims: Claims) -> CheckUser {
        arbitrary()
    }
}

/// What a user sends to sign up.
#[derive(Debug)]
pub struct SignUser {
    pub uname: String,
    pub password: String,
    pub confirm: String,
}

/// What a user sends to log in.
#[derive(Debug)]
pub struct LogUser {
    pub uname: String,
    pub password: String,
}

/// Request for the user with a given name.
#[derive(Debug)]
pub struct UserID {
    pub uname: String,
}

impl Clone for UserID {
    fn clone(&self) -> (copy: Self)
        ensures
            copy == *self,
    {
        UserID { uname: self.uname.clone() }
    }
}

/// What a user sends to change the data that others may know. The name
/// serves as the key and does not change.
#[derive(Debug)]
pub struct UpdateUser {
    pub uname: String,
    pub avatar: String,
    pub email: String,
    pub intro: String,
    pub location: String,
    pub nickname: String,
}

impl Clone for UpdateUser {
    fn clone(&self) -> (copy: Self)
        ensures
            copy == *self,
    {
        UpdateUser {
            uname: self.uname.clone(),
            avatar: self.avatar.clone(),
            email: self.email.clone(),
            intro: self.intro.clone(),
            location: self.location.clone(),
            nickname: self.nickname.clone(),
        }
    }
}

/// What a user sends to change the password.
#[derive(Debug)]
pub struct ChangePsw {
    pub old_psw: String,
    pub new_psw: String,
    pub uname: String,
}

impl Clone for ChangePsw {
    fn clone(&self) -> (copy: Self)
        ensures
            copy == *self,
    {
        ChangePsw { old_psw: self.old_psw.clone(), new_psw: self.new_psw.clone(), uname: self.uname.clone() }
    }
}

/// One user follows another.
#[derive(Debug)]
pub struct Follow {
    pub id: String,
    /// Who follows.
    pub uname: String,
    /// Who is followed.
    pub fname: String,
    pub fo_at: i64,
    pub note: String,
}

/// One thing that a user did.
#[derive(Debug)]
pub struct Timeline {
    pub id: String,
    pub uname: String,
    /// What was done: create, star, follow.
    pub action: String,
    /// To what kind of thing: rut, item, user, tag.
    pub obj: String,
    pub objid: String,
    pub act_at: i64,
}

/// The claims of a login token.
#[derive(Debug)]
pub struct Claims {
    /// The issuer.
    pub iss: String,
    /// The subject.
    pub sub: String,
    /// When the token was issued, in seconds since the Unix epoch.
    pub iat: i64,
    /// When the token expires, in seconds since the Unix epoch.
    pub exp: i64,
    pub uid: String,
    pub uname: String,
}

/// When a token issued at `now` expires: `TOKEN_LIFETIME` seconds later, or
/// at the last second that can be written where that one cannot.
pub open spec fn token_expiry(now: int) -> int {
    if now + TOKEN_LIFETIME <= i64::MAX {
        now + TOKEN_LIFETIME
    } else {
        i64::MAX as int
    }
}

impl Claims {
    /// Whether these are the claims of a token issued at `now` to the user
    /// with the given id and name.
    pub open spec fn issued_at(self, uid: Seq<char>, uname: Seq<char>, now: int) -> bool {
        &&& self.iss@ == TOKEN_ISSUER@
        &&& self.sub@ == TOKEN_SUBJECT@
        &&& self.iat == now
        &&& self.exp == token_expiry(now)
        &&& self.uid@ == uid
        &&& self.uname@ == uname
    }

    /// The claims of a token issued at `now`, in seconds since the Unix
    /// epoch, to the user with the given id and name.
    pub fn issue(uid: &str, uname: &str, now: i64) -> (claims: Claims)
        ensures
            claims.issued_at(uid@, uname@, now as int),
    {
        let exp = if now <= i64::MAX - TOKEN_LIFETIME {
            now + TOKEN_LIFETIME
        } else {
            i64::MAX
        };
        Claims {
            iss: TOKEN_ISSUER.to_owned(),
            sub: TOKEN_SUBJECT.to_owned(),
            iat: now,
            exp,
            uid: uid.to_owned(),
            uname: uname.to_owned(),
        }
    }

    /// The claims of a token issued now to the user with the given id and
    /// name.
    pub fn new(uid: &str, uname: &str) -> (claims: Claims)
        ensures
            exists|now: int| #[trigger] claims.issued_at(uid@, uname@, now),
    {
        let now = now_seconds();
        let claims = Claims::issue(uid, uname, now);
        assert(claims.issued_at(uid@, uname@, now as int));
        claims
    }
}

} // verus!
