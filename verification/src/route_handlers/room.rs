//! Rooms: creating, joining, listing, and posting and reading messages.

use crate::auth::sessions::{has_user_id, user_with_id, SessionAuthenticator};
use crate::error::{ApiError, Missing};
use crate::ids::Id;
use crate::message_log::{
    chronological, in_room, latest_room_stamp, room_views, stamp_after, MessageLog,
};
use crate::models::rooms::{
    CreateRoomInput, Member, Room, RoomInfo, RoomInfoView, RoomMessage, RoomMessageInput,
    RoomMessageView, RoomView,
};
use crate::room_directory::{
    has_room, is_member, registered_members, room_with, rooms_of_member, rooms_view,
    with_member, Membership, RoomDirectory,
};
use vstd::prelude::*;

verus! {
/// The room of the given identity, or the not-found error.
pub fn get_room(room_id: Id, directory: &RoomDirectory) -> (r: Result<RoomInfo, ApiError>)
    requires
        directory.wf(),
    ensures
        match r {
            Ok(info) => has_room(directory@.rooms, room_id) && info@ == (RoomInfoView {
                id: room_id,
                name: room_with(directory@.rooms, room_id).name,
                owner_id: room_with(directory@.rooms, room_id).owner_id,
                created_at: room_with(directory@.rooms, room_id).created_at,
            }),
            Err(e) => !has_room(directory@.rooms, room_id) && e == ApiError::NotFound(Missing::Room),
        },
{
    match directory.find_room(room_id) {
        Some(room) => Ok(room.info()),
        None => Err(ApiError::NotFound(Missing::Room)),
    }
}

/// Creates a named room owned by `owner_id` at time `now`, and makes the
/// owner its first member.
pub fn create_room(
    owner_id: Id,
    directory: &mut RoomDirectory,
    payload: CreateRoomInput,
    now: i64,
) -> (room: Room)
    requires
        old(directory).wf(),
    ensures
        final(directory).wf(),
        room@ == (RoomView {
            id: old(directory).next_room_id(),
            name: Some(payload.name@),
            owner_id,
            created_at: now,
            is_group: true,
        }),
        !has_room(old(directory)@.rooms, room.id),
        final(directory)@.rooms == old(directory)@.rooms.push(room@),
        final(directory)@.members == old(directory)@.members.push(
            Membership { room_id: room.id, user_id: owner_id },
        ),
{
    proof {
        old(directory).lemma_wf_view();
    }
    let room = directory.add_room(Some(payload.name), true, owner_id, now);
    proof {
        let k = directory@.rooms.len() - 1;
        assert(directory@.rooms[k].id == room.id);
    }
    directory.add_member(room.id, owner_id);
    room
}

/// Makes `user_id` a member of a room. Joining twice is the same as joining
/// once. A room that does not exist is reported as not found.
pub fn join_room(room_id: Id, user_id: Id, directory: &mut RoomDirectory) -> (r: Result<
    (),
    ApiError,
>)
    requires
        old(directory).wf(),
    ensures
        final(directory).wf(),
        has_room(old(directory)@.rooms, room_id) ==> r is Ok && final(directory)@ == with_member(
            old(directory)@,
            room_id,
            user_id,
        ) && is_member(final(directory)@.members, room_id, user_id),
        !has_room(old(directory)@.rooms, room_id) ==> r == Err::<(), ApiError>(ApiError::NotFound(Missing::Room))
            && final(directory)@ == old(directory)@,
{
    if directory.find_room(room_id).is_none() {
        return Err(ApiError::NotFound(Missing::Room));
    }
    directory.add_member(room_id, user_id);
    Ok(())
}

/// The rooms of which `user_id` is a member.
pub fn list_my_rooms(user_id: Id, directory: &RoomDirectory) -> (r: Vec<Room>)
    requires
        directory.wf(),
    ensures
        rooms_view(r@) == rooms_of_member(directory@, user_id),
{
    directory.rooms_of(user_id)
}

/// Posts a message of `author_id` to a room at time `now`.
///
/// Only a member may write to a room: for anyone else the request is
/// refused as that of no member and the log is unchanged. For a member the
/// message is appended to the log and returned with its identity and
/// creation time.
pub fn send_room_message(
    room_id: Id,
    author_id: Id,
    directory: &RoomDirectory,
    log: &mut MessageLog,
    payload: RoomMessageInput,
    now: i64,
) -> (r: Result<RoomMessage, ApiError>)
    requires
        old(log).wf(),
    ensures
        final(log).wf(),
        final(log)@.direct_messages == old(log)@.direct_messages,
        match r {
            Ok(m) => is_member(directory@.members, room_id, author_id) && m@ == (RoomMessageView {
                id: Id { value: old(log).next_id() },
                room_id,
                author_id,
                content: payload.content@,
                created_at: stamp_after(latest_room_stamp(old(log)@), now),
                edited_at: None,
            }) && final(log)@.room_messages == old(log)@.room_messages.push(m@),
            Err(e) => !is_member(directory@.members, room_id, author_id) && e == ApiError::NotAMember
                && final(log)@ == old(log)@,
        },
{
    if !directory.has_member(room_id, author_id) {
        return Err(ApiError::NotAMember);
    }
    Ok(log.append(room_id, author_id, payload.content, now))
}

/// The messages of a room, oldest first, for one of its members. For
/// anyone else the request is refused as that of no member.
pub fn get_room_messages(
    room_id: Id,
    user_id: Id,
    directory: &RoomDirectory,
    log: &MessageLog,
) -> (r: Result<Vec<RoomMessage>, ApiError>)
    requires
        log.wf(),
    ensures
        match r {
            Ok(messages) => is_member(directory@.members, room_id, user_id) && room_views(
                messages@,
            ) == in_room(log@.room_messages, room_id) && chronological(room_views(messages@)),
            Err(e) => !is_member(directory@.members, room_id, user_id) && e == ApiError::NotAMember,
        },
{
    if !directory.has_member(room_id, user_id) {
        return Err(ApiError::NotAMember);
    }
    Ok(log.list_by_room(room_id))
}

/// The members of a room that are registered users, each with identity
/// and name, in the order in which they joined.
pub fn list_room_members(room_id: Id, directory: &RoomDirectory, auth: &SessionAuthenticator) -> (r:
    Vec<Member>)
    requires
        auth.wf(),
    ensures
        r@.len() == registered_members(directory@.members, auth@.users, room_id).len(),
        forall|i: int|
            0 <= i < r@.len() ==> (#[trigger] r@[i]).id == registered_members(
                directory@.members,
                auth@.users,
                room_id,
            )[i] && r@[i].username@ == user_with_id(auth@.users, r@[i].id).username,
{
    let ids = directory.members_of(room_id);
    let mut out: Vec<Member> = Vec::new();
    let mut i: usize = 0;
    let ghost known = |u: Id| has_user_id(auth@.users, u);
    while i < ids.len()
        invariant
            auth.wf(),
            i <= ids@.len(),
            known == |u: Id| has_user_id(auth@.users, u),
            out@.len() == ids@.take(i as int).filter(known).len(),
            forall|k: int|
                0 <= k < out@.len() ==> (#[trigger] out@[k]).id == ids@.take(i as int).filter(
                    known,
                )[k] && out@[k].username@ == user_with_id(auth@.users, out@[k].id).username,
        decreases ids@.len() - i,
    {
        proof {
            assert(ids@.take(i as int + 1) =~= ids@.take(i as int).push(ids@[i as int]));
            ids@.take(i as int).lemma_filter_push(ids@[i as int], known);
        }
        match auth.user_by_id(ids[i]) {
            Some(user) => {
                out.push(Member { id: user.id, username: user.username.clone() });
            },
            None => {},
        }
        i += 1;
    }
    proof {
        assert(ids@.take(i as int) =~= ids@);
    }
    out
}
} // verus!
