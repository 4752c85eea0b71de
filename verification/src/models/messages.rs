//! Direct messages and the body of a send request.

use crate::ids::Id;
use vstd::prelude::*;

verus! {
/// The body of a request to send a message.
#[derive(Debug, PartialEq, Eq)]
pub struct SendMessageInput {
    pub content: String,
}

/// A message from one user to another.
#[derive(Debug, PartialEq, Eq)]
pub struct DirectMessage {
    pub id: Id,
    pub sender_id: Id,
    pub receiver_id: Id,
    pub content: String,
    pub created_at: i64,
}

/// What a `DirectMessage` holds, as plain values.
pub struct DirectMessageView {
    pub id: Id,
    pub sender_id: Id,
    pub receiver_id: Id,
    pub content: Seq<char>,
    pub created_at: i64,
}

impl View for DirectMessage {
    type V = DirectMessageView;

    open spec fn view(&self) -> DirectMessageView {
        DirectMessageView {
            id: self.id,
            sender_id: self.sender_id,
            receiver_id: self.receiver_id,
            content: self.content@,
            created_at: self.created_at,
        }
    }
}

impl Clone for DirectMessage {
    fn clone(&self) -> (r: Self)
        ensures
            r == *self,
    {
        DirectMessage {
            id: self.id,
            sender_id: self.sender_id,
            receiver_id: self.receiver_id,
            content: self.content.clone(),
            created_at: self.created_at,
        }
    }
}
} // verus!
