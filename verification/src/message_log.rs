//! The message log: an append-only store of room messages and direct
//! messages, read back in chronological order.

use crate::ids::Id;
use crate::models::messages::{DirectMessage, DirectMessageView};
use crate::models::rooms::{RoomMessage, RoomMessageView};
use vstd::prelude::*;

verus! {
/// The messages that a log holds, in the order in which they were appended.
pub struct LogView {
    pub room_messages: Seq<RoomMessageView>,
    pub direct_messages: Seq<DirectMessageView>,
}

/// Room messages in chronological order: creation times never decrease and
/// identities strictly increase, so ties in time are broken by insertion.
pub open spec fn chronological(s: Seq<RoomMessageView>) -> bool {
    forall|i: int, j: int|
        0 <= i < j < s.len() ==> (#[trigger] s[i]).created_at <= (#[trigger] s[j]).created_at
            && s[i].id.value < s[j].id.value
}

/// Direct messages in chronological order.
pub open spec fn chronological_direct(s: Seq<DirectMessageView>) -> bool {
    forall|i: int, j: int|
        0 <= i < j < s.len() ==> (#[trigger] s[i]).created_at <= (#[trigger] s[j]).created_at
            && s[i].id.value < s[j].id.value
}

/// The creation time given to a message appended at `now`: the clock's
/// reading, unless the latest message is younger, whose time is then kept.
pub open spec fn stamp_after(latest: Option<i64>, now: i64) -> i64 {
    match latest {
        Some(t) => if t > now {
            t
        } else {
            now
        },
        None => now,
    }
}

/// The creation time of the latest room message.
pub open spec fn latest_room_stamp(v: LogView) -> Option<i64> {
    if v.room_messages.len() > 0 {
        Some(v.room_messages.last().created_at)
    } else {
        None
    }
}

/// The creation time of the latest direct message.
pub open spec fn latest_direct_stamp(v: LogView) -> Option<i64> {
    if v.direct_messages.len() > 0 {
        Some(v.direct_messages.last().created_at)
    } else {
        None
    }
}

/// The messages of one room.
pub open spec fn in_room(s: Seq<RoomMessageView>, room_id: Id) -> Seq<RoomMessageView> {
    s.filter(|m: RoomMessageView| m.room_id == room_id)
}

/// Whether a direct message belongs to the conversation of `a` and `b`.
pub open spec fn between(m: DirectMessageView, a: Id, b: Id) -> bool {
    (m.sender_id == a && m.receiver_id == b) || (m.sender_id == b && m.receiver_id == a)
}

/// The direct messages between two users, in either direction.
pub open spec fn conversation(s: Seq<DirectMessageView>, a: Id, b: Id) -> Seq<DirectMessageView> {
    s.filter(|m: DirectMessageView| between(m, a, b))
}

/// The views of a list of room messages.
pub open spec fn room_views(s: Seq<RoomMessage>) -> Seq<RoomMessageView> {
    s.map_values(|m: RoomMessage| m@)
}

/// The views of a list of direct messages.
pub open spec fn direct_views(s: Seq<DirectMessage>) -> Seq<DirectMessageView> {
    s.map_values(|m: DirectMessage| m@)
}

/// Selecting the messages of a room keeps them in chronological order, and
/// keeps nothing but messages of the log.
pub proof fn lemma_in_room_chronological(s: Seq<RoomMessageView>, room_id: Id)
    requires
        chronological(s),
    ensures
        chronological(in_room(s, room_id)),
        forall|i: int|
            0 <= i < in_room(s, room_id).len() ==> s.contains(#[trigger] in_room(s, room_id)[i])
                && in_room(s, room_id)[i].room_id == room_id,
        forall|i: int|
            0 <= i < s.len() && s[i].room_id == room_id ==> in_room(s, room_id).contains(
                #[trigger] s[i],
            ),
    decreases s.len(),
{
    reveal(Seq::filter);
    if s.len() > 0 {
        let t = s.drop_last();
        lemma_in_room_chronological(t, room_id);
    }
}

/// Selecting a conversation keeps it in chronological order.
pub proof fn lemma_conversation_chronological(s: Seq<DirectMessageView>, a: Id, b: Id)
    requires
        chronological_direct(s),
    ensures
        chronological_direct(conversation(s, a, b)),
        conversation(s, a, b) == conversation(s, b, a),
    decreases s.len(),
{
    reveal(Seq::filter);
    if s.len() > 0 {
        let t = s.drop_last();
        lemma_conversation_chronological(t, a, b);
        let ft = conversation(t, a, b);
        let fs = conversation(s, a, b);
        assert forall|i: int, j: int| 0 <= i < j < fs.len() implies (#[trigger] fs[i]).created_at
            <= (#[trigger] fs[j]).created_at && fs[i].id.value < fs[j].id.value by {
            if j >= ft.len() {
                t.lemma_filter_contains_rev(|m: DirectMessageView| between(m, a, b), ft[i]);
            }
        }
    }
}

/// The message log.
pub struct MessageLog {
    room_messages: Vec<RoomMessage>,
    direct_messages: Vec<DirectMessage>,
    next_id: u128,
}

impl View for MessageLog {
    type V = LogView;

    closed spec fn view(&self) -> LogView {
        LogView {
            room_messages: room_views(self.room_messages@),
            direct_messages: direct_views(self.direct_messages@),
        }
    }
}

impl MessageLog {
    /// Both lists are in chronological order, and the next identity is
    /// larger than every identity given out.
    pub closed spec fn wf(&self) -> bool {
        &&& chronological(self@.room_messages)
        &&& chronological_direct(self@.direct_messages)
        &&& self.next_id == self.room_messages@.len() + self.direct_messages@.len()
        &&& forall|i: int|
            0 <= i < self@.room_messages.len() ==> (#[trigger] self@.room_messages[i]).id.value
                < self.next_id
        &&& forall|i: int|
            0 <= i < self@.direct_messages.len() ==> (#[trigger] self@.direct_messages[i]).id.value
                < self.next_id
    }

    /// The identity that the next appended message receives.
    pub closed spec fn next_id(&self) -> u128 {
        self.next_id
    }

    /// In a well-formed log both lists are in chronological order, and every
    /// identity given out is smaller than the next one.
    pub proof fn lemma_wf_view(&self)
        requires
            self.wf(),
        ensures
            chronological(self@.room_messages),
            chronological_direct(self@.direct_messages),
            forall|i: int|
                0 <= i < self@.room_messages.len() ==> (#[trigger] self@.room_messages[i]).id.value
                    < self.next_id(),
            forall|i: int|
                0 <= i < self@.direct_messages.len() ==> (
                #[trigger] self@.direct_messages[i]).id.value < self.next_id(),
    {
    }

    /// The empty log. The first message appended to it receives the
    /// identity 0.
    pub fn new() -> (log: MessageLog)
        ensures
            log.wf(),
            log@.room_messages == Seq::<RoomMessageView>::empty(),
            log@.direct_messages == Seq::<DirectMessageView>::empty(),
            log.next_id() == 0,
    {
        let log = MessageLog {
            room_messages: Vec::new(),
            direct_messages: Vec::new(),
            next_id: 0,
        };
        log
    }

    /// Appends a message to a room at the clock reading `now` and returns
    /// the fully populated record.
    ///
    /// The message receives the next identity, which is larger than every
    /// identity given out before, and the creation time `now`, or that of
    /// the latest message where the clock has fallen behind it: creation
    /// times in the log never decrease.
    pub fn append(&mut self, room_id: Id, author_id: Id, content: String, now: i64) -> (m:
        RoomMessage)
        requires
            old(self).wf(),
        ensures
            final(self).wf(),
            m@ == (RoomMessageView {
                id: Id { value: old(self).next_id() },
                room_id,
                author_id,
                content: content@,
                created_at: stamp_after(latest_room_stamp(old(self)@), now),
                edited_at: None,
            }),
            final(self)@.room_messages == old(self)@.room_messages.push(m@),
            final(self)@.direct_messages == old(self)@.direct_messages,
            final(self).next_id() == old(self).next_id() + 1,
    {
        let ghost before = self@;
        let n = self.room_messages.len();
        let others = self.direct_messages.len();
        let created_at = if n > 0 && self.room_messages[n - 1].created_at > now {
            self.room_messages[n - 1].created_at
        } else {
            now
        };
        let message = RoomMessage {
            id: Id { value: self.next_id },
            room_id,
            author_id,
            content,
            created_at,
            edited_at: None,
        };
        let copy = message.clone();
        self.room_messages.push(message);
        self.next_id = self.next_id + 1;
        proof {
            assert(self@.room_messages =~= before.room_messages.push(copy@));
        }
        copy
    }

    /// The messages of a room, in chronological order: ascending by
    /// creation time, then by identity.
    pub fn list_by_room(&self, room_id: Id) -> (r: Vec<RoomMessage>)
        requires
            self.wf(),
        ensures
            room_views(r@) == in_room(self@.room_messages, room_id),
            chronological(room_views(r@)),
    {
        let mut out: Vec<RoomMessage> = Vec::new();
        let mut i: usize = 0;
        let ghost keep = |m: RoomMessageView| m.room_id == room_id;
        while i < self.room_messages.len()
            invariant
                i <= self.room_messages@.len(),
                keep == |m: RoomMessageView| m.room_id == room_id,
                room_views(out@) == self@.room_messages.take(i as int).filter(keep),
            decreases self.room_messages@.len() - i,
        {
            proof {
                let s = self@.room_messages;
                assert(s.take(i as int + 1) =~= s.take(i as int).push(s[i as int]));
                s.take(i as int).lemma_filter_push(s[i as int], keep);
            }
            if self.room_messages[i].room_id.value == room_id.value {
                out.push(self.room_messages[i].clone());
            }
            i += 1;
        }
        proof {
            assert(self@.room_messages.take(i as int) =~= self@.room_messages);
            lemma_in_room_chronological(self@.room_messages, room_id);
        }
        out
    }

    /// The identity that the next appended message receives: a mark from
    /// which later appends can be told.
    pub fn mark(&self) -> (id: u128)
        ensures
            id == self.next_id(),
    {
        self.next_id
    }

    /// The room messages appended since a mark was taken, oldest first.
    pub fn room_messages_since(&self, mark: u128) -> (r: Vec<RoomMessage>)
        ensures
            room_views(r@) == self@.room_messages.filter(|m: RoomMessageView| m.id.value >= mark),
    {
        let mut out: Vec<RoomMessage> = Vec::new();
        let mut i: usize = 0;
        let ghost keep = |m: RoomMessageView| m.id.value >= mark;
        while i < self.room_messages.len()
            invariant
                i <= self.room_messages@.len(),
                keep == |m: RoomMessageView| m.id.value >= mark,
                room_views(out@) == self@.room_messages.take(i as int).filter(keep),
            decreases self.room_messages@.len() - i,
        {
            proof {
                let s = self@.room_messages;
                assert(s.take(i as int + 1) =~= s.take(i as int).push(s[i as int]));
                s.take(i as int).lemma_filter_push(s[i as int], keep);
            }
            if self.room_messages[i].id.value >= mark {
                out.push(self.room_messages[i].clone());
            }
            i += 1;
        }
        proof {
            assert(self@.room_messages.take(i as int) =~= self@.room_messages);
        }
        out
    }

    /// The direct messages appended since a mark was taken, oldest first.
    pub fn direct_messages_since(&self, mark: u128) -> (r: Vec<DirectMessage>)
        ensures
            direct_views(r@) == self@.direct_messages.filter(
                |m: DirectMessageView| m.id.value >= mark,
            ),
    {
        let mut out: Vec<DirectMessage> = Vec::new();
        let mut i: usize = 0;
        let ghost keep = |m: DirectMessageView| m.id.value >= mark;
        while i < self.direct_messages.len()
            invariant
                i <= self.direct_messages@.len(),
                keep == |m: DirectMessageView| m.id.value >= mark,
                direct_views(out@) == self@.direct_messages.take(i as int).filter(keep),
            decreases self.direct_messages@.len() - i,
        {
            proof {
                let s = self@.direct_messages;
                assert(s.take(i as int + 1) =~= s.take(i as int).push(s[i as int]));
                s.take(i as int).lemma_filter_push(s[i as int], keep);
            }
            if self.direct_messages[i].id.value >= mark {
                out.push(self.direct_messages[i].clone());
            }
            i += 1;
        }
        proof {
            assert(self@.direct_messages.take(i as int) =~= self@.direct_messages);
        }
        out
    }

    /// Appends a direct message at the clock reading `now` and returns the
    /// fully populated record. Identities and creation times are given as
    /// for room messages.
    pub fn append_direct(&mut self, sender_id: Id, receiver_id: Id, content: String, now: i64) -> (m:
        DirectMessage)
        requires
            old(self).wf(),
        ensures
            final(self).wf(),
            m@ == (DirectMessageView {
                id: Id { value: old(self).next_id() },
                sender_id,
                receiver_id,
                content: content@,
                created_at: stamp_after(latest_direct_stamp(old(self)@), now),
            }),
            final(self)@.direct_messages == old(self)@.direct_messages.push(m@),
            final(self)@.room_messages == old(self)@.room_messages,
            final(self).next_id() == old(self).next_id() + 1,
    {
        let ghost before = self@;
        let n = self.direct_messages.len();
        let others = self.room_messages.len();
        let created_at = if n > 0 && self.direct_messages[n - 1].created_at > now {
            self.direct_messages[n - 1].created_at
        } else {
            now
        };
        let message = DirectMessage {
            id: Id { value: self.next_id },
            sender_id,
            receiver_id,
            content,
            created_at,
        };
        let copy = message.clone();
        self.direct_messages.push(message);
        self.next_id = self.next_id + 1;
        proof {
            assert(self@.direct_messages =~= before.direct_messages.push(copy@));
        }
        copy
    }

    /// The direct messages between two users, in either direction, in
    /// chronological order.
    pub fn list_direct(&self, a: Id, b: Id) -> (r: Vec<DirectMessage>)
        requires
            self.wf(),
        ensures
            direct_views(r@) == conversation(self@.direct_messages, a, b),
            chronological_direct(direct_views(r@)),
    {
        let mut out: Vec<DirectMessage> = Vec::new();
        let mut i: usize = 0;
        let ghost keep = |m: DirectMessageView| between(m, a, b);
        while i < self.direct_messages.len()
            invariant
                i <= self.direct_messages@.len(),
                keep == |m: DirectMessageView| between(m, a, b),
                direct_views(out@) == self@.direct_messages.take(i as int).filter(keep),
            decreases self.direct_messages@.len() - i,
        {
            proof {
                let s = self@.direct_messages;
                assert(s.take(i as int + 1) =~= s.take(i as int).push(s[i as int]));
                s.take(i as int).lemma_filter_push(s[i as int], keep);
            }
            let m = &self.direct_messages[i];
            if (m.sender_id.value == a.value && m.receiver_id.value == b.value) || (
            m.sender_id.value == b.value && m.receiver_id.value == a.value) {
                out.push(m.clone());
            }
            i += 1;
        }
        proof {
            assert(self@.direct_messages.take(i as int) =~= self@.direct_messages);
            lemma_conversation_chronological(self@.direct_messages, a, b);
        }
        out
    }
}
} // verus!
