//! The authentication chain: a user read from the session cookie, and an
//! administrator that can only be made from such a user.
use vstd::prelude::*;
use crate::outcome::Outcome;
use crate::text::{number_value, parse_usize, spells_usize};

verus! {

/// A signed-in user.
#[derive(Debug, Clone, Copy, PartialEq, Eq, Structural)]
pub struct User {
    pub id: usize,
}

/// A signed-in user who is also an administrator.
#[derive(Debug, Clone, Copy, PartialEq, Eq, Structural)]
pub struct Admin(pub User);

/// The id the identity collaborator hands over for a session cookie: its
/// value read as a decimal `usize`, if it is one.
pub open spec fn session_user_id(cookie: Option<Seq<char>>) -> Option<nat> {
    match cookie {
        Some(v) => if spells_usize(v) {
            Some(number_value(v))
        } else {
            None
        },
        None => None,
    }
}

/// The view of an optional text.
pub open spec fn opt_view(o: Option<Vec<char>>) -> Option<Seq<char>> {
    match o {
        Some(v) => Some(v@),
        None => None,
    }
}

/// Whether a user is an administrator: the reserved id zero.
pub open spec fn is_admin_id(id: nat) -> bool {
    id == 0
}

/// What the user guard gives for a session cookie.
pub open spec fn user_outcome(cookie: Option<Seq<char>>) -> Outcome<User, ()> {
    match session_user_id(cookie) {
        Some(id) => Outcome::Success(User { id: id as usize }),
        None => Outcome::Forward,
    }
}

/// What the administrator guard gives for a session cookie.
pub open spec fn admin_outcome(cookie: Option<Seq<char>>) -> Outcome<Admin, ()> {
    match user_outcome(cookie) {
        Outcome::Success(u) => if is_admin_id(u.id as nat) {
            Outcome::Success(Admin(u))
        } else {
            Outcome::Forward
        },
        Outcome::Failure(e) => Outcome::Failure(e),
        Outcome::Forward => Outcome::Forward,
    }
}

impl User {
    /// The user guard: succeeds with the user whose id the session cookie
    /// holds, and forwards when there is no cookie or it holds no id.
    pub fn from_request(cookie: &Option<Vec<char>>) -> (r: Outcome<User, ()>)
        ensures
            r == user_outcome(opt_view(*cookie)),
            !(r is Failure),
    {
        match cookie {
            Some(v) => match parse_usize(v) {
                Some(id) => Outcome::Success(User { id }),
                None => Outcome::Forward,
            },
            None => Outcome::Forward,
        }
    }
}

impl Admin {
    /// The administrator guard: runs the user guard, keeps its user only
    /// when that user is an administrator, and forwards otherwise.
    pub fn from_request(cookie: &Option<Vec<char>>) -> (r: Outcome<Admin, ()>)
        ensures
            r == admin_outcome(opt_view(*cookie)),
            r is Success ==> user_outcome(opt_view(*cookie)) == Outcome::<User, ()>::Success(
                r->Success_0.0,
            ),
    {
        match User::from_request(cookie) {
            Outcome::Success(user) => if user.id == 0 {
                Outcome::Success(Admin(user))
            } else {
                Outcome::Forward
            },
            Outcome::Failure(e) => Outcome::Failure(e),
            Outcome::Forward => Outcome::Forward,
        }
    }
}

} // verus!
