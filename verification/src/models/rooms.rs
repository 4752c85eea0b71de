//! Rooms, their members and their messages.

use crate::ids::Id;
use vstd::prelude::*;

verus! {
/// The body of a request to create a room.
#[derive(Debug, PartialEq, Eq)]
pub struct CreateRoomInput {
    pub name: String,
}

/// A room. Direct-style rooms, which are not groups, may go without a
/// display name.
#[derive(Debug, PartialEq, Eq)]
pub struct Room {
    pub id: Id,
    pub name: Option<String>,
    pub owner_id: Id,
    pub created_at: i64,
    pub is_group: bool,
}

/// What a `Room` holds, as plain values.
pub struct RoomView {
    pub id: Id,
    pub name: Option<Seq<char>>,
    pub owner_id: Id,
    pub created_at: i64,
    pub is_group: bool,
}

/// An optional text as plain values.
pub open spec fn text_view(text: Option<String>) -> Option<Seq<char>> {
    match text {
        Some(t) => Some(t@),
        None => None,
    }
}

/// A copy of an optional text.
pub fn copy_text(text: &Option<String>) -> (r: Option<String>)
    ensures
        r == *text,
{
    match text {
        Some(t) => Some(t.clone()),
        None => None,
    }
}

impl View for Room {
    type V = RoomView;

    open spec fn view(&self) -> RoomView {
        RoomView {
            id: self.id,
            name: text_view(self.name),
            owner_id: self.owner_id,
            created_at: self.created_at,
            is_group: self.is_group,
        }
    }
}

impl Clone for Room {
    fn clone(&self) -> (r: Self)
        ensures
            r == *self,
    {
        Room {
            id: self.id,
            name: copy_text(&self.name),
            owner_id: self.owner_id,
            created_at: self.created_at,
            is_group: self.is_group,
        }
    }
}

impl Room {
    /// The room as shown to a client.
    pub fn info(&self) -> (r: RoomInfo)
        ensures
            r@ == (RoomInfoView {
                id: self.id,
                name: text_view(self.name),
                owner_id: self.owner_id,
                created_at: self.created_at,
            }),
    {
        RoomInfo {
            id: self.id,
            name: copy_text(&self.name),
            owner_id: self.owner_id,
            created_at: self.created_at,
        }
    }
}

/// The body of a request to post a message to a room.
#[derive(Debug, PartialEq, Eq)]
pub struct RoomMessageInput {
    pub content: String,
}

/// A message in a room.
#[derive(Debug, PartialEq, Eq)]
pub struct RoomMessage {
    pub id: Id,
    pub room_id: Id,
    pub author_id: Id,
    pub content: String,
    pub created_at: i64,
    pub edited_at: Option<i64>,
}

/// What a `RoomMessage` holds, as plain values.
pub struct RoomMessageView {
    pub id: Id,
    pub room_id: Id,
    pub author_id: Id,
    pub content: Seq<char>,
    pub created_at: i64,
    pub edited_at: Option<i64>,
}

impl View for RoomMessage {
    type V = RoomMessageView;

    open spec fn view(&self) -> RoomMessageView {
        RoomMessageView {
            id: self.id,
            room_id: self.room_id,
            author_id: self.author_id,
            content: self.content@,
            created_at: self.created_at,
            edited_at: self.edited_at,
        }
    }
}

impl Clone for RoomMessage {
    fn clone(&self) -> (r: Self)
        ensures
            r == *self,
    {
        RoomMessage {
            id: self.id,
            room_id: self.room_id,
            author_id: self.author_id,
            content: self.content.clone(),
            created_at: self.created_at,
            edited_at: self.edited_at,
        }
    }
}

/// A room as shown to a client.
#[derive(Debug, PartialEq, Eq)]
pub struct RoomInfo {
    pub id: Id,
    pub name: Option<String>,
    pub owner_id: Id,
    pub created_at: i64,
}

/// What a `RoomInfo` holds, as plain values.
pub struct RoomInfoView {
    pub id: Id,
    pub name: Option<Seq<char>>,
    pub owner_id: Id,
    pub created_at: i64,
}

impl View for RoomInfo {
    type V = RoomInfoView;

    open spec fn view(&self) -> RoomInfoView {
        RoomInfoView {
            id: self.id,
            name: text_view(self.name),
            owner_id: self.owner_id,
            created_at: self.created_at,
        }
    }
}

/// A member of a room: a user's identity and name.
#[derive(Debug, PartialEq, Eq)]
pub struct Member {
    pub id: Id,
    pub username: String,
}

/// What a `Member` holds, as plain values.
pub struct MemberView {
    pub id: Id,
    pub username: Seq<char>,
}

impl View for Member {
    type V = MemberView;

    open spec fn view(&self) -> MemberView {
        MemberView { id: self.id, username: self.username@ }
    }
}
} // verus!
