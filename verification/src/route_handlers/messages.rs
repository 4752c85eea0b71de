//! Room messages as they are shown to a client: identities and times in
//! text form.

use crate::auth::middleware::CurrentUser;
use crate::clock::{rfc3339, rfc3339_text};
use crate::error::{ApiError, Fault};
use crate::ids::{uuid_text, Id};
use crate::message_log::{in_room, latest_room_stamp, stamp_after, MessageLog};
use crate::models::rooms::{RoomMessageInput, RoomMessageView};
use crate::room_directory::{is_member, RoomDirectory};
use crate::route_handlers::room::{get_room_messages, send_room_message};
use vstd::prelude::*;

verus! {
/// The body of a request to post a message.
#[derive(Debug, PartialEq, Eq)]
pub struct PostMessageRequest {
    pub content: String,
}

/// A room message as it is shown to a client.
#[derive(Debug, PartialEq, Eq)]
pub struct MessageResponse {
    pub id: String,
    pub sender_id: String,
    pub content: String,
    pub created_at: String,
}

/// What a `MessageResponse` holds, as plain values.
pub struct MessageResponseView {
    pub id: Seq<char>,
    pub sender_id: Seq<char>,
    pub content: Seq<char>,
    pub created_at: Seq<char>,
}

impl View for MessageResponse {
    type V = MessageResponseView;

    open spec fn view(&self) -> MessageResponseView {
        MessageResponseView {
            id: self.id@,
            sender_id: self.sender_id@,
            content: self.content@,
            created_at: self.created_at@,
        }
    }
}

/// Every message has a creation time with an RFC 3339 form.
pub open spec fn all_presentable(s: Seq<RoomMessageView>) -> bool {
    forall|i: int| 0 <= i < s.len() ==> rfc3339_text((#[trigger] s[i]).created_at) is Some
}

/// A message as it is shown.
pub open spec fn shown(m: RoomMessageView) -> MessageResponseView {
    MessageResponseView {
        id: uuid_text(m.id.value),
        sender_id: uuid_text(m.author_id.value),
        content: m.content,
        created_at: rfc3339_text(m.created_at)->0,
    }
}

/// Posts a message of the caller to a room at time `now`. Only a member
/// may write to a room; for a member the message is appended to the log.
pub fn post_message_to_room(
    log: &mut MessageLog,
    directory: &RoomDirectory,
    user: &CurrentUser,
    room_id: Id,
    payload: PostMessageRequest,
    now: i64,
) -> (r: Result<(), ApiError>)
    requires
        old(log).wf(),
    ensures
        final(log).wf(),
        final(log)@.direct_messages == old(log)@.direct_messages,
        match r {
            Ok(_) => is_member(directory@.members, room_id, user.id) && final(log)@.room_messages
                == old(log)@.room_messages.push(
                RoomMessageView {
                    id: Id { value: old(log).next_id() },
                    room_id,
                    author_id: user.id,
                    content: payload.content@,
                    created_at: stamp_after(latest_room_stamp(old(log)@), now),
                    edited_at: None,
                },
            ),
            Err(e) => !is_member(directory@.members, room_id, user.id) && e == ApiError::NotAMember
                && final(log)@ == old(log)@,
        },
{
    match send_room_message(
        room_id,
        user.id,
        directory,
        log,
        RoomMessageInput { content: payload.content },
        now,
    ) {
        Ok(_) => Ok(()),
        Err(e) => Err(e),
    }
}

/// The messages of a room, oldest first, as they are shown to the caller.
///
/// Only a member may read a room. A message whose creation time has no
/// RFC 3339 form cannot be shown, and the request fails as a whole.
pub fn get_messages_by_room(
    log: &MessageLog,
    directory: &RoomDirectory,
    user: &CurrentUser,
    room_id: Id,
) -> (r: Result<Vec<MessageResponse>, ApiError>)
    requires
        log.wf(),
    ensures
        match r {
            Ok(list) => is_member(directory@.members, room_id, user.id) && all_presentable(
                in_room(log@.room_messages, room_id),
            ) && list@.len() == in_room(log@.room_messages, room_id).len() && forall|i: int|
                0 <= i < list@.len() ==> (#[trigger] list@[i])@ == shown(
                    in_room(log@.room_messages, room_id)[i],
                ),
            Err(e) => if is_member(directory@.members, room_id, user.id) {
                e == ApiError::Internal(Fault::Other) && !all_presentable(in_room(log@.room_messages, room_id))
            } else {
                e == ApiError::NotAMember
            },
        },
{
    let messages = match get_room_messages(room_id, user.id, directory, log) {
        Ok(messages) => messages,
        Err(e) => {
            return Err(e);
        },
    };
    let ghost source = in_room(log@.room_messages, room_id);
    let mut out: Vec<MessageResponse> = Vec::new();
    let mut i: usize = 0;
    while i < messages.len()
        invariant
            i <= messages@.len(),
            out@.len() == i,
            is_member(directory@.members, room_id, user.id),
            source == in_room(log@.room_messages, room_id),
            crate::message_log::room_views(messages@) == source,
            forall|k: int| 0 <= k < i ==> rfc3339_text((#[trigger] source[k]).created_at) is Some,
            forall|k: int| 0 <= k < i ==> (#[trigger] out@[k])@ == shown(source[k]),
        decreases messages@.len() - i,
    {
        let m = &messages[i];
        assert(m@ == source[i as int]);
        let created_at = match rfc3339(m.created_at) {
            Some(text) => text,
            None => {
                return Err(ApiError::Internal(Fault::Other));
            },
        };
        out.push(
            MessageResponse {
                id: m.id.text(),
                sender_id: m.author_id.text(),
                content: m.content.clone(),
                created_at,
            },
        );
        i += 1;
    }
    Ok(out)
}
} // verus!
