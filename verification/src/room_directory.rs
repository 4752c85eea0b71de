//! Rooms and their memberships.

use crate::ids::Id;
use crate::models::rooms::{Room, RoomView};
use vstd::prelude::*;

verus! {
/// A user's membership of a room.
#[derive(Clone, Copy, Debug, PartialEq, Eq, Structural)]
pub struct Membership {
    pub room_id: Id,
    pub user_id: Id,
}

/// The rooms and memberships that a directory holds, in the order in which
/// they were recorded.
pub struct DirectoryView {
    pub rooms: Seq<RoomView>,
    pub members: Seq<Membership>,
}

/// Some room has this identity.
pub open spec fn has_room(rooms: Seq<RoomView>, id: Id) -> bool {
    exists|i: int| 0 <= i < rooms.len() && (#[trigger] rooms[i]).id == id
}

/// The room of this identity, where there is one.
pub open spec fn room_with(rooms: Seq<RoomView>, id: Id) -> RoomView {
    rooms[choose|i: int| 0 <= i < rooms.len() && (#[trigger] rooms[i]).id == id]
}

/// `user_id` is a member of `room_id`.
pub open spec fn is_member(members: Seq<Membership>, room_id: Id, user_id: Id) -> bool {
    members.contains(Membership { room_id, user_id })
}

/// A room that is not a group and has both users among its members.
pub open spec fn is_direct_room(v: DirectoryView, room: RoomView, a: Id, b: Id) -> bool {
    !room.is_group && is_member(v.members, room.id, a) && is_member(v.members, room.id, b)
}

/// The rooms of which a user is a member.
pub open spec fn rooms_of_member(v: DirectoryView, user_id: Id) -> Seq<RoomView> {
    v.rooms.filter(|r: RoomView| is_member(v.members, r.id, user_id))
}

/// The members of a room.
pub open spec fn members_of_room(members: Seq<Membership>, room_id: Id) -> Seq<Id> {
    members.filter(|m: Membership| m.room_id == room_id).map_values(|m: Membership| m.user_id)
}

/// Room identities are unique, no membership is recorded twice, and every
/// membership is of a room that exists.
pub open spec fn valid_directory(v: DirectoryView) -> bool {
    &&& forall|i: int, j: int|
        0 <= i < v.rooms.len() && 0 <= j < v.rooms.len() && i != j ==> (#[trigger] v.rooms[i]).id
            != (#[trigger] v.rooms[j]).id
    &&& v.members.no_duplicates()
    &&& forall|i: int| 0 <= i < v.members.len() ==> has_room(v.rooms, (#[trigger] v.members[i]).room_id)
}

/// The views of a list of rooms.
pub open spec fn rooms_view(s: Seq<Room>) -> Seq<RoomView> {
    s.map_values(|r: Room| r@)
}

/// The members of a room are exactly the users that hold a membership of
/// it.
pub proof fn lemma_members_of_room(members: Seq<Membership>, room_id: Id, user_id: Id)
    ensures
        members_of_room(members, room_id).contains(user_id) <==> is_member(
            members,
            room_id,
            user_id,
        ),
{
    let keep = |m: Membership| m.room_id == room_id;
    let kept = members.filter(keep);
    let ids = members_of_room(members, room_id);
    let m = Membership { room_id, user_id };
    if ids.contains(user_id) {
        let i = choose|i: int| 0 <= i < ids.len() && ids[i] == user_id;
        members.lemma_filter_contains_rev(keep, kept[i]);
    }
    if members.contains(m) {
        let i = choose|i: int| 0 <= i < members.len() && members[i] == m;
        members.lemma_filter_contains(keep, i);
        let k = choose|k: int| 0 <= k < kept.len() && kept[k] == m;
        assert(ids[k] == user_id);
    }
}

/// The members of a room that are registered users, in the order in which
/// they joined.
pub open spec fn registered_members(
    members: Seq<Membership>,
    users: Seq<crate::models::user::UserView>,
    room_id: Id,
) -> Seq<Id> {
    members_of_room(members, room_id).filter(
        |u: Id| crate::auth::sessions::has_user_id(users, u),
    )
}

/// The directory after a membership is added, unless it is there already.
pub open spec fn with_member(v: DirectoryView, room_id: Id, user_id: Id) -> DirectoryView {
    if is_member(v.members, room_id, user_id) {
        v
    } else {
        DirectoryView { rooms: v.rooms, members: v.members.push(Membership { room_id, user_id }) }
    }
}

/// The directory of rooms and memberships.
pub struct RoomDirectory {
    rooms: Vec<Room>,
    members: Vec<Membership>,
    next_room: u128,
}

impl View for RoomDirectory {
    type V = DirectoryView;

    closed spec fn view(&self) -> DirectoryView {
        DirectoryView { rooms: rooms_view(self.rooms@), members: self.members@ }
    }
}

impl RoomDirectory {
    /// The directory is valid, and room identities are given out in
    /// increasing order.
    pub closed spec fn wf(&self) -> bool {
        &&& valid_directory(self@)
        &&& self.next_room == self.rooms@.len()
        &&& forall|i: int|
            0 <= i < self@.rooms.len() ==> (#[trigger] self@.rooms[i]).id.value < self.next_room
    }

    /// The identity that the next room receives.
    pub closed spec fn next_room_id(&self) -> Id {
        Id { value: self.next_room }
    }

    /// A well-formed directory is valid, and the next room's identity is new.
    pub proof fn lemma_wf_view(&self)
        requires
            self.wf(),
        ensures
            valid_directory(self@),
            !has_room(self@.rooms, self.next_room_id()),
    {
    }

    /// The empty directory. The first room recorded in it receives the
    /// identity 0.
    pub fn new() -> (d: RoomDirectory)
        ensures
            d.wf(),
            d@.rooms == Seq::<RoomView>::empty(),
            d@.members == Seq::<Membership>::empty(),
            d.next_room_id() == (Id { value: 0 }),
    {
        let d = RoomDirectory { rooms: Vec::new(), members: Vec::new(), next_room: 0 };
        d
    }

    /// The room of the given identity, if there is one.
    pub fn find_room(&self, id: Id) -> (r: Option<&Room>)
        requires
            self.wf(),
        ensures
            r is Some <==> has_room(self@.rooms, id),
            r matches Some(room) ==> room@ == room_with(self@.rooms, id) && room.id == id,
    {
        let mut i: usize = 0;
        while i < self.rooms.len()
            invariant
                self.wf(),
                i <= self.rooms@.len(),
                forall|j: int| 0 <= j < i ==> (#[trigger] self@.rooms[j]).id != id,
            decreases self.rooms@.len() - i,
        {
            if self.rooms[i].id.value == id.value {
                assert(self@.rooms[i as int].id == id);
                return Some(&self.rooms[i]);
            }
            i += 1;
        }
        None
    }

    /// Records a new room and returns it. The room receives the next
    /// identity, which no other room has.
    pub(crate) fn add_room(
        &mut self,
        name: Option<String>,
        is_group: bool,
        owner_id: Id,
        now: i64,
    ) -> (room: Room)
        requires
            old(self).wf(),
        ensures
            final(self).wf(),
            room@ == (RoomView {
                id: old(self).next_room_id(),
                name: crate::models::rooms::text_view(name),
                owner_id,
                created_at: now,
                is_group,
            }),
            !has_room(old(self)@.rooms, room.id),
            final(self)@.rooms == old(self)@.rooms.push(room@),
            final(self)@.members == old(self)@.members,
    {
        let ghost before = self@;
        let n = self.rooms.len();
        let room = Room {
            id: Id { value: self.next_room },
            name,
            owner_id,
            created_at: now,
            is_group,
        };
        let copy = room.clone();
        self.rooms.push(room);
        self.next_room = self.next_room + 1;
        proof {
            assert(self@.rooms =~= before.rooms.push(copy@));
            assert forall|i: int| 0 <= i < self@.members.len() implies has_room(
                self@.rooms,
                (#[trigger] self@.members[i]).room_id,
            ) by {
                let rid = before.members[i].room_id;
                let k = choose|k: int| 0 <= k < before.rooms.len() && (#[trigger] before.rooms[k]).id == rid;
                assert(self@.rooms[k] == before.rooms[k]);
            }
        }
        copy
    }

    /// Whether a user is a member of a room.
    pub fn has_member(&self, room_id: Id, user_id: Id) -> (r: bool)
        ensures
            r == is_member(self@.members, room_id, user_id),
    {
        let mut i: usize = 0;
        while i < self.members.len()
            invariant
                i <= self.members@.len(),
                forall|j: int|
                    0 <= j < i ==> (#[trigger] self@.members[j]) != (Membership { room_id, user_id }),
            decreases self.members@.len() - i,
        {
            let m = self.members[i];
            if m.room_id.value == room_id.value && m.user_id.value == user_id.value {
                return true;
            }
            i += 1;
        }
        false
    }

    /// Makes a user a member of a room that exists. A membership that is
    /// there already is left as it is. Returns whether one was added.
    pub(crate) fn add_member(&mut self, room_id: Id, user_id: Id) -> (added: bool)
        requires
            old(self).wf(),
            has_room(old(self)@.rooms, room_id),
        ensures
            final(self).wf(),
            added == !is_member(old(self)@.members, room_id, user_id),
            final(self)@ == with_member(old(self)@, room_id, user_id),
            is_member(final(self)@.members, room_id, user_id),
    {
        if self.has_member(room_id, user_id) {
            return false;
        }
        self.members.push(Membership { room_id, user_id });
        proof {
            assert(self@.members[self@.members.len() - 1] == (Membership { room_id, user_id }));
        }
        true
    }

    /// The rooms of which a user is a member, in the order in which the
    /// rooms were recorded.
    pub fn rooms_of(&self, user_id: Id) -> (r: Vec<Room>)
        requires
            self.wf(),
        ensures
            rooms_view(r@) == rooms_of_member(self@, user_id),
    {
        let mut out: Vec<Room> = Vec::new();
        let mut i: usize = 0;
        let ghost keep = |r: RoomView| is_member(self@.members, r.id, user_id);
        while i < self.rooms.len()
            invariant
                i <= self.rooms@.len(),
                keep == |r: RoomView| is_member(self@.members, r.id, user_id),
                rooms_view(out@) == self@.rooms.take(i as int).filter(keep),
            decreases self.rooms@.len() - i,
        {
            proof {
                let s = self@.rooms;
                assert(s.take(i as int + 1) =~= s.take(i as int).push(s[i as int]));
                s.take(i as int).lemma_filter_push(s[i as int], keep);
            }
            if self.has_member(self.rooms[i].id, user_id) {
                out.push(self.rooms[i].clone());
            }
            i += 1;
        }
        proof {
            assert(self@.rooms.take(i as int) =~= self@.rooms);
        }
        out
    }

    /// The members of a room, in the order in which they joined.
    pub fn members_of(&self, room_id: Id) -> (r: Vec<Id>)
        ensures
            r@ == members_of_room(self@.members, room_id),
    {
        let mut out: Vec<Id> = Vec::new();
        let mut i: usize = 0;
        let ghost keep = |m: Membership| m.room_id == room_id;
        let ghost pick = |m: Membership| m.user_id;
        while i < self.members.len()
            invariant
                i <= self.members@.len(),
                keep == |m: Membership| m.room_id == room_id,
                pick == |m: Membership| m.user_id,
                out@ == self@.members.take(i as int).filter(keep).map_values(pick),
            decreases self.members@.len() - i,
        {
            proof {
                let s = self@.members;
                assert(s.take(i as int + 1) =~= s.take(i as int).push(s[i as int]));
                s.take(i as int).lemma_filter_push(s[i as int], keep);
            }
            let m = self.members[i];
            if m.room_id.value == room_id.value {
                out.push(m.user_id);
            }
            i += 1;
        }
        proof {
            assert(self@.members.take(i as int) =~= self@.members);
        }
        out
    }

    /// A room that is not a group and has both users among its members, if
    /// there is one.
    pub fn find_direct_room(&self, a: Id, b: Id) -> (r: Option<&Room>)
        requires
            self.wf(),
        ensures
            r matches Some(room) ==> self@.rooms.contains(room@) && is_direct_room(
                self@,
                room@,
                a,
                b,
            ),
            r is None ==> forall|i: int|
                0 <= i < self@.rooms.len() ==> !is_direct_room(self@, #[trigger] self@.rooms[i], a, b),
    {
        let mut i: usize = 0;
        while i < self.rooms.len()
            invariant
                i <= self.rooms@.len(),
                forall|j: int| 0 <= j < i ==> !is_direct_room(self@, #[trigger] self@.rooms[j], a, b),
            decreases self.rooms@.len() - i,
        {
            let room = &self.rooms[i];
            if !room.is_group && self.has_member(room.id, a) && self.has_member(room.id, b) {
                assert(self@.rooms[i as int] == room@);
                return Some(room);
            }
            i += 1;
        }
        None
    }
}
} // verus!
