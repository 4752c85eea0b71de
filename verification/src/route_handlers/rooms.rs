//! Rooms with explicit member lists: group rooms, and direct-style rooms
//! between two users, of which a pair of users has at most one.

use crate::auth::sessions::{has_user_id, user_with_id, SessionAuthenticator};
use crate::error::{ApiError, Invalid, Missing};
use crate::frames::{outbound_frame, outbound_text};
use crate::ids::{parsed_uuid, uuid_text, Id};
use crate::models::rooms::{copy_text, text_view, RoomView};
use crate::room_directory::{
    has_room, is_direct_room, is_member, lemma_members_of_room, members_of_room,
    rooms_of_member, DirectoryView, Membership, RoomDirectory,
};
use vstd::prelude::*;
use vstd::string::StringExecFns;

verus! {
/// The body of a request to create a room with members.
#[derive(Debug, PartialEq, Eq)]
pub struct CreateRoomRequest {
    pub name: Option<String>,
    pub is_group: bool,
    pub member_ids: Vec<String>,
}

/// A room as listed for one of its members.
#[derive(Debug, PartialEq, Eq)]
pub struct RoomResponse {
    pub id: String,
    pub name: Option<String>,
    pub is_group: bool,
}

/// What a `RoomResponse` holds, as plain values.
pub struct RoomResponseView {
    pub id: Seq<char>,
    pub name: Option<Seq<char>>,
    pub is_group: bool,
}

impl View for RoomResponse {
    type V = RoomResponseView;

    open spec fn view(&self) -> RoomResponseView {
        RoomResponseView { id: self.id@, name: text_view(self.name), is_group: self.is_group }
    }
}

/// What an outbound frame says of a message: who sent it, under which
/// name, and what.
#[derive(Debug, PartialEq, Eq)]
pub struct MessagePayload {
    pub sender_id: String,
    pub username: String,
    pub content: String,
}

/// The body of a request to add a member to a room.
#[derive(Debug, PartialEq, Eq)]
pub struct AddRoomMemberRequest {
    pub user_id: String,
}

/// The answer to a request to add a member to a room.
#[derive(Debug, PartialEq, Eq)]
pub struct AddRoomMemberResponse {
    pub status: String,
    pub room_id: Id,
    pub user_id: Id,
}

impl MessagePayload {
    /// The outbound frame that carries the payload with the creation time
    /// of its message. `None` exactly where that time has no RFC 3339 form.
    pub fn frame(&self, created_at: i64) -> (r: Option<String>)
        ensures
            r is Some <==> outbound_text(
                self.sender_id@,
                Some(self.username@),
                self.content@,
                created_at,
            ) is Some,
            r matches Some(frame) ==> Some(frame@) == outbound_text(
                self.sender_id@,
                Some(self.username@),
                self.content@,
                created_at,
            ),
    {
        outbound_frame(
            self.sender_id.as_str(),
            Some(self.username.as_str()),
            self.content.as_str(),
            created_at,
        )
    }
}

/// Every text is the text form of an identity.
pub open spec fn all_parse(texts: Seq<String>) -> bool {
    forall|i: int| 0 <= i < texts.len() ==> parsed_uuid(#[trigger] texts[i]@) is Some
}

/// The identities that a list of texts stands for.
pub open spec fn parsed_ids(texts: Seq<String>) -> Seq<Id> {
    texts.map_values(|t: String| Id { value: parsed_uuid(t@)->0 })
}

/// Some room is a direct room of the two users.
pub open spec fn direct_room_exists(v: DirectoryView, a: Id, b: Id) -> bool {
    exists|i: int| 0 <= i < v.rooms.len() && is_direct_room(v, #[trigger] v.rooms[i], a, b)
}

/// Whether a request is answered with a room that exists already: it asks
/// for a direct-style room with one other user, who is registered, and the
/// two already share one.
pub open spec fn reuses_room(
    v: DirectoryView,
    users: Seq<crate::models::user::UserView>,
    user_id: Id,
    is_group: bool,
    member_ids: Seq<Id>,
) -> bool {
    !is_group && member_ids.len() == 1 && member_ids[0] != user_id && has_user_id(
        users,
        member_ids[0],
    ) && direct_room_exists(v, user_id, member_ids[0])
}

/// The display name of a new room: the requested one for a group, and
/// `dm` for a direct-style room.
pub open spec fn new_room_name(name: Option<Seq<char>>, is_group: bool) -> Option<Seq<char>> {
    if is_group {
        name
    } else {
        Some("dm"@)
    }
}

/// Reads a list of identities from their text forms: `Some` exactly when
/// every text is well formed.
pub fn parse_ids(texts: &Vec<String>) -> (r: Option<Vec<Id>>)
    ensures
        r is Some <==> all_parse(texts@),
        r matches Some(ids) ==> ids@ == parsed_ids(texts@),
{
    let mut out: Vec<Id> = Vec::new();
    let mut i: usize = 0;
    while i < texts.len()
        invariant
            i <= texts@.len(),
            out@.len() == i,
            forall|k: int| 0 <= k < i ==> parsed_uuid(#[trigger] texts@[k]@) == Some(out@[k].value),
        decreases texts@.len() - i,
    {
        match Id::parse(texts[i].as_str()) {
            Some(id) => {
                out.push(id);
            },
            None => {
                return None;
            },
        }
        i += 1;
    }
    Some(out)
}

fn add_members(directory: &mut RoomDirectory, room_id: Id, ids: &Vec<Id>)
    requires
        old(directory).wf(),
        has_room(old(directory)@.rooms, room_id),
    ensures
        final(directory).wf(),
        final(directory)@.rooms == old(directory)@.rooms,
        forall|m: Membership|
            final(directory)@.members.contains(m) <==> old(directory)@.members.contains(m) || (
            m.room_id == room_id && ids@.contains(m.user_id)),
{
    let mut i: usize = 0;
    while i < ids.len()
        invariant
            i <= ids@.len(),
            directory.wf(),
            directory@.rooms == old(directory)@.rooms,
            has_room(directory@.rooms, room_id),
            forall|m: Membership|
                directory@.members.contains(m) <==> old(directory)@.members.contains(m) || (
                m.room_id == room_id && ids@.take(i as int).contains(m.user_id)),
        decreases ids@.len() - i,
    {
        let ghost mid = directory@;
        directory.add_member(room_id, ids[i]);
        proof {
            let done = ids@.take(i as int);
            let next = ids@.take(i as int + 1);
            assert forall|m: Membership|
                directory@.members.contains(m) <==> old(directory)@.members.contains(m) || (
                m.room_id == room_id && next.contains(m.user_id)) by {
                let now_members = directory@.members;
                if now_members.contains(m) {
                    if !mid.members.contains(m) {
                        assert(next[i as int] == ids@[i as int]);
                    }
                }
                if old(directory)@.members.contains(m) || (m.room_id == room_id && next.contains(
                    m.user_id,
                )) {
                    if mid.members.contains(m) {
                        let k = choose|k: int| 0 <= k < mid.members.len() && mid.members[k] == m;
                        if now_members != mid.members {
                            assert(now_members[k] == m);
                        }
                    }
                }
            }
        }
        i += 1;
    }
    assert(ids@.take(i as int) =~= ids@);
}

/// The name of some registered user, other than `user_id`, who is a member
/// of the room; `None` where the room has no such member.
fn other_member_name(
    directory: &RoomDirectory,
    auth: &SessionAuthenticator,
    room_id: Id,
    user_id: Id,
) -> (r: Option<String>)
    requires
        auth.wf(),
    ensures
        named_after(text_view(r), room_id, user_id, directory@, auth@.users),
{
    let ids = directory.members_of(room_id);
    let mut i: usize = 0;
    while i < ids.len()
        invariant
            auth.wf(),
            i <= ids@.len(),
            ids@ == members_of_room(directory@.members, room_id),
            forall|k: int|
                0 <= k < i ==> (#[trigger] ids@[k]) == user_id || !has_user_id(auth@.users, ids@[k]),
        decreases ids@.len() - i,
    {
        if ids[i].value != user_id.value {
            match auth.user_by_id(ids[i]) {
                Some(user) => {
                    proof {
                        lemma_members_of_room(directory@.members, room_id, ids@[i as int]);
                    }
                    return Some(user.username.clone());
                },
                None => {},
            }
        }
        i += 1;
    }
    proof {
        assert forall|other: Id|
            !(is_member(directory@.members, room_id, other) && other != user_id && has_user_id(
                auth@.users,
                other,
            )) by {
            lemma_members_of_room(directory@.members, room_id, other);
        }
    }
    None
}

/// A direct-style room is shown under the name of some registered member
/// other than the viewer, and without a name only where it has no such
/// member.
pub open spec fn named_after(
    name: Option<Seq<char>>,
    room_id: Id,
    user_id: Id,
    v: DirectoryView,
    users: Seq<crate::models::user::UserView>,
) -> bool {
    match name {
        Some(n) => exists|other: Id|
            #[trigger] is_member(v.members, room_id, other) && other != user_id && has_user_id(
                users,
                other,
            ) && n == user_with_id(users, other).username,
        None => forall|other: Id|
            !(#[trigger] is_member(v.members, room_id, other) && other != user_id && has_user_id(
                users,
                other,
            )),
    }
}

/// How a room is listed for the member `user_id`: under its identity in
/// text form; a group under its own name, a direct-style room under the
/// name of the other member.
pub open spec fn listed_as(
    resp: RoomResponseView,
    room: RoomView,
    user_id: Id,
    v: DirectoryView,
    users: Seq<crate::models::user::UserView>,
) -> bool {
    &&& resp.id == uuid_text(room.id.value)
    &&& resp.is_group == room.is_group
    &&& room.is_group ==> resp.name == room.name
    &&& !room.is_group ==> named_after(resp.name, room.id, user_id, v, users)
}

/// Creates a room for `user_id` with the listed members at time `now`.
///
/// A member identity that is malformed rejects the request before
/// anything changes. A request for a direct-style room with one other
/// registered user, where the two already share one, changes nothing and
/// answers with that room under the other user's name. Otherwise a room
/// is created (a group under the requested name, a direct-style room under
/// `dm`), and the listed users and `user_id` become its members.
pub fn create_room(
    directory: &mut RoomDirectory,
    auth: &SessionAuthenticator,
    user_id: Id,
    payload: CreateRoomRequest,
    now: i64,
) -> (r: Result<RoomResponse, ApiError>)
    requires
        old(directory).wf(),
        auth.wf(),
    ensures
        final(directory).wf(),
        !all_parse(payload.member_ids@) ==> (r matches Err(e) && e == ApiError::Validation(
            Invalid::MalformedId,
        ) && final(directory)@ == old(directory)@),
        all_parse(payload.member_ids@) && reuses_room(
            old(directory)@,
            auth@.users,
            user_id,
            payload.is_group,
            parsed_ids(payload.member_ids@),
        ) ==> (r matches Ok(resp) && final(directory)@ == old(directory)@ && !resp.is_group
            && resp@.name == Some(
            user_with_id(auth@.users, parsed_ids(payload.member_ids@)[0]).username,
        ) && exists|i: int|
            0 <= i < old(directory)@.rooms.len() && is_direct_room(
                old(directory)@,
                #[trigger] old(directory)@.rooms[i],
                user_id,
                parsed_ids(payload.member_ids@)[0],
            ) && resp.id@ == uuid_text(old(directory)@.rooms[i].id.value)),
        all_parse(payload.member_ids@) && !reuses_room(
            old(directory)@,
            auth@.users,
            user_id,
            payload.is_group,
            parsed_ids(payload.member_ids@),
        ) ==> (r matches Ok(resp) && {
            let room = RoomView {
                id: old(directory).next_room_id(),
                name: new_room_name(text_view(payload.name), payload.is_group),
                owner_id: user_id,
                created_at: now,
                is_group: payload.is_group,
            };
            &&& resp@ == (RoomResponseView {
                id: uuid_text(room.id.value),
                name: room.name,
                is_group: room.is_group,
            })
            &&& final(directory)@.rooms == old(directory)@.rooms.push(room)
            &&& forall|m: Membership|
                final(directory)@.members.contains(m) <==> old(directory)@.members.contains(m) || (
                m.room_id == room.id && (m.user_id == user_id || parsed_ids(
                    payload.member_ids@,
                ).contains(m.user_id)))
        }),
{
    let ids = match parse_ids(&payload.member_ids) {
        Some(ids) => ids,
        None => {
            return Err(ApiError::Validation(Invalid::MalformedId));
        },
    };
    if !payload.is_group && ids.len() == 1 && ids[0].value != user_id.value {
        match auth.user_by_id(ids[0]) {
            Some(other) => match directory.find_direct_room(user_id, ids[0]) {
                Some(existing) => {
                    return Ok(
                        RoomResponse {
                            id: existing.id.text(),
                            name: Some(other.username.clone()),
                            is_group: false,
                        },
                    );
                },
                None => {},
            },
            None => {},
        }
    }
    let name = if payload.is_group {
        copy_text(&payload.name)
    } else {
        Some(String::from_str("dm"))
    };
    let room = directory.add_room(name, payload.is_group, user_id, now);
    proof {
        let k = directory@.rooms.len() - 1;
        assert(directory@.rooms[k].id == room.id);
    }
    add_members(directory, room.id, &ids);
    let ghost listed = directory@;
    directory.add_member(room.id, user_id);
    proof {
        assert forall|m: Membership|
            directory@.members.contains(m) <==> old(directory)@.members.contains(m) || (m.room_id
                == room.id && (m.user_id == user_id || ids@.contains(m.user_id))) by {
            let now_members = directory@.members;
            if listed.members.contains(m) {
                let k = choose|k: int| 0 <= k < listed.members.len() && listed.members[k] == m;
                if now_members != listed.members {
                    assert(now_members[k] == m);
                }
            }
        }
    }
    Ok(RoomResponse { id: room.id.text(), name: copy_text(&room.name), is_group: room.is_group })
}

/// The rooms of which `user_id` is a member, each as it is listed for
/// that user.
pub fn list_rooms(directory: &RoomDirectory, auth: &SessionAuthenticator, user_id: Id) -> (r: Vec<
    RoomResponse,
>)
    requires
        directory.wf(),
        auth.wf(),
    ensures
        r@.len() == rooms_of_member(directory@, user_id).len(),
        forall|i: int|
            0 <= i < r@.len() ==> listed_as(
                (#[trigger] r@[i])@,
                rooms_of_member(directory@, user_id)[i],
                user_id,
                directory@,
                auth@.users,
            ),
{
    let rooms = directory.rooms_of(user_id);
    let mut out: Vec<RoomResponse> = Vec::new();
    let mut i: usize = 0;
    while i < rooms.len()
        invariant
            auth.wf(),
            i <= rooms@.len(),
            out@.len() == i,
            crate::room_directory::rooms_view(rooms@) == rooms_of_member(directory@, user_id),
            forall|k: int|
                0 <= k < i ==> listed_as(
                    (#[trigger] out@[k])@,
                    rooms_of_member(directory@, user_id)[k],
                    user_id,
                    directory@,
                    auth@.users,
                ),
        decreases rooms@.len() - i,
    {
        let room = &rooms[i];
        let name = if room.is_group {
            copy_text(&room.name)
        } else {
            other_member_name(directory, auth, room.id, user_id)
        };
        out.push(RoomResponse { id: room.id.text(), name, is_group: room.is_group });
        i += 1;
    }
    out
}

/// The members of a room, as the text forms of their identities, in the
/// order in which they joined.
pub fn list_room_members(directory: &RoomDirectory, room_id: Id) -> (r: Vec<String>)
    ensures
        r@.len() == members_of_room(directory@.members, room_id).len(),
        forall|i: int|
            0 <= i < r@.len() ==> (#[trigger] r@[i])@ == uuid_text(
                members_of_room(directory@.members, room_id)[i].value,
            ),
{
    let ids = directory.members_of(room_id);
    let mut out: Vec<String> = Vec::new();
    let mut i: usize = 0;
    while i < ids.len()
        invariant
            i <= ids@.len(),
            out@.len() == i,
            forall|k: int| 0 <= k < i ==> (#[trigger] out@[k])@ == uuid_text(ids@[k].value),
        decreases ids@.len() - i,
    {
        out.push(ids[i].text());
        i += 1;
    }
    out
}

/// Adds the user named in the request to a room.
///
/// A malformed identity is rejected, and a room that does not exist is
/// reported as not found; nothing changes then. Otherwise the user is a
/// member afterwards; adding a member twice is the same as adding it once.
pub fn add_room_member(directory: &mut RoomDirectory, room_id: Id, payload: AddRoomMemberRequest) -> (r:
    Result<AddRoomMemberResponse, ApiError>)
    requires
        old(directory).wf(),
    ensures
        final(directory).wf(),
        match r {
            Ok(resp) => parsed_uuid(payload.user_id@) == Some(resp.user_id.value) && has_room(
                old(directory)@.rooms,
                room_id,
            ) && resp.room_id == room_id && resp.status@ == "member_added"@ && final(directory)@
                == crate::room_directory::with_member(old(directory)@, room_id, resp.user_id),
            Err(e) => final(directory)@ == old(directory)@ && if parsed_uuid(payload.user_id@)
                is None {
                e == ApiError::Validation(Invalid::MalformedId)
            } else {
                e == ApiError::NotFound(Missing::Room) && !has_room(old(directory)@.rooms, room_id)
            },
        },
{
    let user_id = match Id::parse(payload.user_id.as_str()) {
        Some(id) => id,
        None => {
            return Err(ApiError::Validation(Invalid::MalformedId));
        },
    };
    if directory.find_room(room_id).is_none() {
        return Err(ApiError::NotFound(Missing::Room));
    }
    directory.add_member(room_id, user_id);
    Ok(AddRoomMemberResponse { status: String::from_str("member_added"), room_id, user_id })
}
} // verus!
