//! User records and the bodies of the account requests.

use crate::ids::Id;
use vstd::prelude::*;

verus! {
/// A registered user, with the salted hash of the password.
#[derive(Debug, PartialEq, Eq)]
pub struct User {
    pub id: Id,
    pub username: String,
    pub password_hash: String,
    pub created_at: i64,
}

/// What a `User` holds, as plain values.
pub struct UserView {
    pub id: Id,
    pub username: Seq<char>,
    pub password_hash: Seq<char>,
    pub created_at: i64,
}

impl View for User {
    type V = UserView;

    open spec fn view(&self) -> UserView {
        UserView {
            id: self.id,
            username: self.username@,
            password_hash: self.password_hash@,
            created_at: self.created_at,
        }
    }
}

impl Clone for User {
    fn clone(&self) -> (r: Self)
        ensures
            r == *self,
    {
        User {
            id: self.id,
            username: self.username.clone(),
            password_hash: self.password_hash.clone(),
            created_at: self.created_at,
        }
    }
}

/// A user as shown to other users: without the password hash.
#[derive(Debug, PartialEq, Eq)]
pub struct PublicUser {
    pub id: Id,
    pub username: String,
    pub created_at: i64,
}

/// The body of a registration request.
#[derive(Debug, PartialEq, Eq)]
pub struct RegisterInput {
    pub username: String,
    pub password: String,
}

/// The body of a login request.
#[derive(Debug, PartialEq, Eq)]
pub struct LoginInput {
    pub username: String,
    pub password: String,
}

/// A user's identity and name.
#[derive(Debug, PartialEq, Eq)]
pub struct SimpleUser {
    pub id: Id,
    pub username: String,
}

/// What a `SimpleUser` holds, as plain values.
pub struct SimpleUserView {
    pub id: Id,
    pub username: Seq<char>,
}

impl View for SimpleUser {
    type V = SimpleUserView;

    open spec fn view(&self) -> SimpleUserView {
        SimpleUserView { id: self.id, username: self.username@ }
    }
}

impl User {
    /// The user without the password hash.
    pub fn public(&self) -> (r: PublicUser)
        ensures
            r.id == self.id,
            r.username@ == self.username@,
            r.created_at == self.created_at,
    {
        PublicUser {
            id: self.id,
            username: self.username.clone(),
            created_at: self.created_at,
        }
    }

    /// The user's identity and name.
    pub fn simple(&self) -> (r: SimpleUser)
        ensures
            r@ == (SimpleUserView { id: self.id, username: self.username@ }),
    {
        SimpleUser { id: self.id, username: self.username.clone() }
    }
}
} // verus!
