//! The bodies of the account requests and answers, as they travel.

use crate::ids::uuid_text;
use crate::models::messages::DirectMessage;
use crate::models::user::{LoginInput, RegisterInput, User};
use vstd::prelude::*;

verus! {
/// The body of a registration request.
#[derive(Debug, PartialEq, Eq)]
pub struct RegisterRequest {
    pub username: String,
    pub password: String,
}

/// The body of a login request.
#[derive(Debug, PartialEq, Eq)]
pub struct LoginRequest {
    pub username: String,
    pub password: String,
}

/// The body of the answer to a login: the bearer credential.
#[derive(Debug, PartialEq, Eq)]
pub struct TokenResponse {
    pub token: String,
}

/// A user's own profile.
#[derive(Debug, PartialEq, Eq)]
pub struct UserProfile {
    pub id: String,
    pub username: String,
    pub created_at: Option<i64>,
}

/// A direct message as it is shown to a client.
#[derive(Debug, PartialEq, Eq)]
pub struct Message {
    pub id: Option<String>,
    pub sender_id: Option<String>,
    pub recipient_id: Option<String>,
    pub content: String,
    pub sent_at: Option<i64>,
}

impl RegisterRequest {
    /// The request as the input of registration.
    pub fn into_input(self) -> (r: RegisterInput)
        ensures
            r.username == self.username,
            r.password == self.password,
    {
        RegisterInput { username: self.username, password: self.password }
    }
}

impl LoginRequest {
    /// The request as the input of login.
    pub fn into_input(self) -> (r: LoginInput)
        ensures
            r.username == self.username,
            r.password == self.password,
    {
        LoginInput { username: self.username, password: self.password }
    }
}

impl UserProfile {
    /// The profile of a user: identity in text form, name, and creation
    /// time.
    pub fn of(user: &User) -> (r: UserProfile)
        ensures
            r.id@ == uuid_text(user.id.value),
            r.username@ == user.username@,
            r.created_at == Some(user.created_at),
    {
        UserProfile {
            id: user.id.text(),
            username: user.username.clone(),
            created_at: Some(user.created_at),
        }
    }
}

impl Message {
    /// A direct message as it is shown: identities in text form.
    pub fn of(message: &DirectMessage) -> (r: Message)
        ensures
            r.id matches Some(id) && id@ == uuid_text(message.id.value),
            r.sender_id matches Some(id) && id@ == uuid_text(message.sender_id.value),
            r.recipient_id matches Some(id) && id@ == uuid_text(message.receiver_id.value),
            r.content@ == message.content@,
            r.sent_at == Some(message.created_at),
    {
        Message {
            id: Some(message.id.text()),
            sender_id: Some(message.sender_id.text()),
            recipient_id: Some(message.receiver_id.text()),
            content: message.content.clone(),
            sent_at: Some(message.created_at),
        }
    }
}
} // verus!
