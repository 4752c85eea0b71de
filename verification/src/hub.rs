//! The room registry and fan-out hub: one channel per room, created on
//! demand and shared by every subscriber of that room.
//!
//! A frame published to a room is appended to the buffer of each of the
//! room's subscribers. Buffers are bounded: a subscriber whose buffer is
//! full when a frame arrives is marked as lagged and loses its buffer, so
//! that a slow subscriber never holds up the publisher or the others.
//! A channel that has lost its last subscriber is evicted once it has been
//! idle for the grace period.
//!
//! Each channel carries a bell, a `tokio` broadcast channel of unit values,
//! that is rung at every publication. A task that forwards frames waits on
//! the bell and then polls its subscription: the bell says that there may
//! be something to take, and the buffer says what.

use crate::ids::Id;
use vstd::prelude::*;

verus! {
/// The number of frames that a subscriber's buffer holds unless the
/// registry is made with another capacity.
pub const DEFAULT_CAPACITY: usize = 100;

/// A subscriber's handle on a room's channel.
#[derive(Clone, Copy, Debug, PartialEq, Eq, Structural)]
pub struct Subscription {
    pub room_id: Id,
    pub id: u64,
}

/// What a poll of a subscription yields.
#[derive(Debug, PartialEq, Eq)]
pub enum Delivery {
    /// The oldest frame that the subscriber had not yet taken.
    Frame(String),
    /// Nothing is waiting.
    Empty,
    /// The subscriber fell behind by more than its buffer holds and was
    /// dropped from delivery.
    Lagged,
    /// The subscription is not registered.
    Closed,
}

/// One subscriber of a channel.
pub struct SubscriberView {
    pub id: u64,
    /// The frames delivered and not yet taken, oldest first.
    pub pending: Seq<Seq<char>>,
    pub lagged: bool,
    /// How many frames the channel had published when the subscriber joined.
    pub joined_at: nat,
    /// The frames already taken, oldest first.
    pub received: Seq<Seq<char>>,
}

/// One room's channel.
pub struct ChannelView {
    pub room_id: Id,
    pub subscribers: Seq<SubscriberView>,
    /// Since when the channel has been without subscribers.
    pub idle_since: Option<i64>,
    /// Every frame published on the channel, oldest first.
    pub published: Seq<Seq<char>>,
}

/// The registry.
pub struct RegistryView {
    pub channels: Seq<ChannelView>,
    pub capacity: nat,
    pub grace_secs: i64,
    pub next_subscription: u64,
}

/// Everything a subscriber has been handed so far: the frames it took,
/// then those waiting in its buffer.
pub open spec fn observed(s: SubscriberView) -> Seq<Seq<char>> {
    s.received + s.pending
}

/// Some channel serves this room.
pub open spec fn has_channel(v: RegistryView, room_id: Id) -> bool {
    exists|i: int| 0 <= i < v.channels.len() && (#[trigger] v.channels[i]).room_id == room_id
}

/// The position of the channel that serves this room, where there is one.
pub open spec fn channel_index(v: RegistryView, room_id: Id) -> int {
    choose|i: int| 0 <= i < v.channels.len() && (#[trigger] v.channels[i]).room_id == room_id
}

/// The channel that serves this room, where there is one.
pub open spec fn channel_of(v: RegistryView, room_id: Id) -> ChannelView {
    v.channels[channel_index(v, room_id)]
}

/// The channel has a subscriber of this identity.
pub open spec fn has_subscriber(c: ChannelView, id: u64) -> bool {
    exists|j: int| 0 <= j < c.subscribers.len() && (#[trigger] c.subscribers[j]).id == id
}

/// The position of the subscriber of this identity, where there is one.
pub open spec fn subscriber_index(c: ChannelView, id: u64) -> int {
    choose|j: int| 0 <= j < c.subscribers.len() && (#[trigger] c.subscribers[j]).id == id
}

/// The subscriber of this identity, where there is one.
pub open spec fn subscriber_of(c: ChannelView, id: u64) -> SubscriberView {
    c.subscribers[subscriber_index(c, id)]
}

/// The subscription is registered: its room has a channel, and the channel
/// has the subscriber.
pub open spec fn is_subscribed(v: RegistryView, sub: Subscription) -> bool {
    has_channel(v, sub.room_id) && has_subscriber(channel_of(v, sub.room_id), sub.id)
}

/// A subscriber's state is consistent with its channel: the buffer is
/// within capacity, and unless the subscriber lagged, what it has observed
/// is exactly what the channel published since it joined, in that order.
pub open spec fn valid_subscriber(s: SubscriberView, c: ChannelView, v: RegistryView) -> bool {
    &&& s.id < v.next_subscription
    &&& s.pending.len() <= v.capacity
    &&& !s.lagged ==> s.joined_at <= c.published.len() && observed(s) == c.published.skip(
        s.joined_at as int,
    )
}

/// A channel is consistent: its subscribers are, no two of them share an
/// identity, and it is marked idle exactly while it has no subscriber.
pub open spec fn valid_channel(c: ChannelView, v: RegistryView) -> bool {
    &&& forall|j: int|
        0 <= j < c.subscribers.len() ==> valid_subscriber(#[trigger] c.subscribers[j], c, v)
    &&& forall|j: int, k: int|
        0 <= j < c.subscribers.len() && 0 <= k < c.subscribers.len() && j != k ==> (
        #[trigger] c.subscribers[j]).id != (#[trigger] c.subscribers[k]).id
    &&& c.subscribers.len() == 0 <==> c.idle_since is Some
}

/// The registry is consistent: every channel is, and no two channels serve
/// the same room.
pub open spec fn valid_registry(v: RegistryView) -> bool {
    &&& forall|i: int| 0 <= i < v.channels.len() ==> valid_channel(#[trigger] v.channels[i], v)
    &&& forall|i: int, j: int|
        0 <= i < v.channels.len() && 0 <= j < v.channels.len() && i != j ==> (
        #[trigger] v.channels[i]).room_id != (#[trigger] v.channels[j]).room_id
}

/// A channel without subscribers or history, idle since `now`.
pub open spec fn fresh_channel(room_id: Id, now: i64) -> ChannelView {
    ChannelView {
        room_id,
        subscribers: Seq::empty(),
        idle_since: Some(now),
        published: Seq::empty(),
    }
}

/// The registry after the channel of a room is asked for: the channel is
/// created if the room had none.
pub open spec fn after_get_or_create(v: RegistryView, room_id: Id, now: i64) -> RegistryView {
    if has_channel(v, room_id) {
        v
    } else {
        RegistryView { channels: v.channels.push(fresh_channel(room_id, now)), ..v }
    }
}

/// A subscriber that joins a channel now: nothing taken, nothing waiting.
pub open spec fn fresh_subscriber(id: u64, c: ChannelView) -> SubscriberView {
    SubscriberView {
        id,
        pending: Seq::empty(),
        lagged: false,
        joined_at: c.published.len(),
        received: Seq::empty(),
    }
}

/// A channel after a subscriber joins it.
pub open spec fn joined(c: ChannelView, id: u64) -> ChannelView {
    ChannelView {
        subscribers: c.subscribers.push(fresh_subscriber(id, c)),
        idle_since: None,
        ..c
    }
}

/// The registry after a subscription to a room: the room's channel is
/// created if need be, and gains a subscriber with the next identity.
pub open spec fn after_subscribe(v: RegistryView, room_id: Id, now: i64) -> RegistryView {
    let w = after_get_or_create(v, room_id, now);
    let i = channel_index(w, room_id);
    RegistryView {
        channels: w.channels.update(i, joined(w.channels[i], v.next_subscription)),
        next_subscription: (v.next_subscription + 1) as u64,
        ..w
    }
}

/// A subscriber after a frame is published on its channel.
pub open spec fn deliver(s: SubscriberView, frame: Seq<char>, capacity: nat) -> SubscriberView {
    if s.lagged {
        s
    } else if s.pending.len() >= capacity {
        SubscriberView { lagged: true, pending: Seq::empty(), ..s }
    } else {
        SubscriberView { pending: s.pending.push(frame), ..s }
    }
}

/// Whether a publication reaches the subscriber.
pub open spec fn receives(s: SubscriberView, capacity: nat) -> bool {
    !s.lagged && s.pending.len() < capacity
}

/// A channel after a frame is published on it.
pub open spec fn published_on(c: ChannelView, frame: Seq<char>, capacity: nat) -> ChannelView {
    ChannelView {
        published: c.published.push(frame),
        subscribers: c.subscribers.map_values(|s: SubscriberView| deliver(s, frame, capacity)),
        ..c
    }
}

/// The registry after a frame is published to a room. Without a channel
/// for the room nothing happens.
pub open spec fn after_publish(v: RegistryView, room_id: Id, frame: Seq<char>) -> RegistryView {
    if has_channel(v, room_id) {
        let i = channel_index(v, room_id);
        RegistryView {
            channels: v.channels.update(i, published_on(v.channels[i], frame, v.capacity)),
            ..v
        }
    } else {
        v
    }
}

/// How many subscribers of a room a publication reaches.
pub open spec fn reach(v: RegistryView, room_id: Id) -> nat {
    if has_channel(v, room_id) {
        channel_of(v, room_id).subscribers.filter(|s: SubscriberView| receives(s, v.capacity)).len()
    } else {
        0
    }
}

/// A subscriber after it takes the oldest waiting frame.
pub open spec fn took(s: SubscriberView) -> SubscriberView {
    SubscriberView { pending: s.pending.skip(1), received: s.received.push(s.pending[0]), ..s }
}

/// Whether a poll of the subscription yields a frame.
pub open spec fn frame_waiting(v: RegistryView, sub: Subscription) -> bool {
    is_subscribed(v, sub) && !subscriber_of(channel_of(v, sub.room_id), sub.id).lagged
        && subscriber_of(channel_of(v, sub.room_id), sub.id).pending.len() > 0
}

/// The registry after a poll of a subscription: where a frame is waiting,
/// the subscriber takes the oldest one.
pub open spec fn after_poll(v: RegistryView, sub: Subscription) -> RegistryView {
    if frame_waiting(v, sub) {
        let i = channel_index(v, sub.room_id);
        let c = v.channels[i];
        let j = subscriber_index(c, sub.id);
        RegistryView {
            channels: v.channels.update(
                i,
                (ChannelView { subscribers: c.subscribers.update(j, took(c.subscribers[j])), ..c }),
            ),
            ..v
        }
    } else {
        v
    }
}

/// A channel after a subscriber leaves it at `now`.
pub open spec fn left(c: ChannelView, id: u64, now: i64) -> ChannelView {
    let rest = c.subscribers.remove(subscriber_index(c, id));
    ChannelView {
        subscribers: rest,
        idle_since: if rest.len() == 0 {
            Some(now)
        } else {
            None
        },
        ..c
    }
}

/// The registry after a subscription is released at `now`.
pub open spec fn after_unsubscribe(v: RegistryView, sub: Subscription, now: i64) -> RegistryView {
    if is_subscribed(v, sub) {
        let i = channel_index(v, sub.room_id);
        RegistryView { channels: v.channels.update(i, left(v.channels[i], sub.id, now)), ..v }
    } else {
        v
    }
}

/// Whether a channel is due for eviction at `now`: it has no subscriber
/// and has been idle for the grace period.
pub open spec fn expired(c: ChannelView, now: i64, grace_secs: i64) -> bool {
    c.subscribers.len() == 0 && c.idle_since is Some && now - c.idle_since->0 >= grace_secs
}

/// The registry after the channels due for eviction at `now` are removed.
pub open spec fn after_evict(v: RegistryView, now: i64) -> RegistryView {
    RegistryView {
        channels: v.channels.filter(|c: ChannelView| !expired(c, now, v.grace_secs)),
        ..v
    }
}

struct Subscriber {
    id: u64,
    pending: Vec<String>,
    lagged: bool,
    joined_at: Ghost<nat>,
    received: Ghost<Seq<Seq<char>>>,
}

struct Channel {
    room_id: Id,
    subscribers: Vec<Subscriber>,
    idle_since: Option<i64>,
    published: Ghost<Seq<Seq<char>>>,
    bell: tokio::sync::broadcast::Sender<()>,
}

/// The sending half of `tokio`'s broadcast channel.
#[verifier::external_type_specification]
#[verifier::external_body]
#[verifier::reject_recursive_types(T)]
pub struct ExBroadcastSender<T>(tokio::sync::broadcast::Sender<T>);

/// The receiving half of `tokio`'s broadcast channel.
#[verifier::external_type_specification]
#[verifier::external_body]
#[verifier::reject_recursive_types(T)]
pub struct ExBroadcastReceiver<T>(tokio::sync::broadcast::Receiver<T>);

/// Calls `tokio::sync::broadcast::channel` and keeps the sender. The call
/// panics on a capacity of 0 or above `usize::MAX / 2`, which `requires`
/// leaves out. Nothing is claimed of the channel.
#[verifier::external_body]
fn new_bell(capacity: usize) -> tokio::sync::broadcast::Sender<()>
    requires
        0 < capacity <= usize::MAX / 2,
{
    tokio::sync::broadcast::channel::<()>(capacity).0
}

/// Calls `Sender::subscribe`. Nothing is claimed of the receiver: what it
/// receives depends on what other tasks send.
#[verifier::external_body]
fn listen(bell: &tokio::sync::broadcast::Sender<()>) -> tokio::sync::broadcast::Receiver<()> {
    bell.subscribe()
}

/// Calls `Sender::send` with a unit value. Nothing is claimed: the call
/// fails where nobody listens, and a success does not mean that anybody
/// observes the value.
#[verifier::external_body]
fn ring(bell: &tokio::sync::broadcast::Sender<()>) {
    let _ = bell.send(());
}

impl View for Subscriber {
    type V = SubscriberView;

    closed spec fn view(&self) -> SubscriberView {
        SubscriberView {
            id: self.id,
            pending: self.pending@.map_values(|f: String| f@),
            lagged: self.lagged,
            joined_at: self.joined_at@,
            received: self.received@,
        }
    }
}

impl View for Channel {
    type V = ChannelView;

    closed spec fn view(&self) -> ChannelView {
        ChannelView {
            room_id: self.room_id,
            subscribers: self.subscribers@.map_values(|s: Subscriber| s@),
            idle_since: self.idle_since,
            published: self.published@,
        }
    }
}

/// The room registry and fan-out hub.
pub struct RoomRegistry {
    channels: Vec<Channel>,
    capacity: usize,
    grace_secs: i64,
    next_subscription: u64,
}

impl View for RoomRegistry {
    type V = RegistryView;

    closed spec fn view(&self) -> RegistryView {
        RegistryView {
            channels: self.channels@.map_values(|c: Channel| c@),
            capacity: self.capacity as nat,
            grace_secs: self.grace_secs,
            next_subscription: self.next_subscription,
        }
    }
}

impl RoomRegistry {
    /// The registry is consistent.
    pub open spec fn wf(&self) -> bool {
        valid_registry(self@)
    }

    /// A registry without channels, whose subscribers buffer up to
    /// `capacity` frames and whose idle channels are kept for `grace_secs`
    /// seconds.
    pub fn new(capacity: usize, grace_secs: i64) -> (r: RoomRegistry)
        ensures
            r.wf(),
            r@ == (RegistryView {
                channels: Seq::empty(),
                capacity: capacity as nat,
                grace_secs,
                next_subscription: 0,
            }),
    {
        let r = RoomRegistry { channels: Vec::new(), capacity, grace_secs, next_subscription: 0 };
        assert(r@.channels =~= Seq::<ChannelView>::empty());
        r
    }

    fn find_channel(&self, room_id: Id) -> (r: Option<usize>)
        requires
            self.wf(),
        ensures
            r is Some <==> has_channel(self@, room_id),
            r matches Some(i) ==> i == channel_index(self@, room_id) && i < self.channels@.len()
                && self.channels@[i as int].room_id == room_id,
    {
        let mut i: usize = 0;
        while i < self.channels.len()
            invariant
                self.wf(),
                i <= self.channels@.len(),
                forall|k: int| 0 <= k < i ==> (#[trigger] self@.channels[k]).room_id != room_id,
            decreases self.channels@.len() - i,
        {
            if self.channels[i].room_id.value == room_id.value {
                assert(self@.channels[i as int].room_id == room_id);
                return Some(i);
            }
            i += 1;
        }
        None
    }

    /// Whether some channel serves this room.
    pub fn has_room(&self, room_id: Id) -> (r: bool)
        requires
            self.wf(),
        ensures
            r == has_channel(self@, room_id),
    {
        self.find_channel(room_id).is_some()
    }

    /// The number of channels.
    pub fn len(&self) -> (n: usize)
        ensures
            n == self@.channels.len(),
    {
        self.channels.len()
    }

    /// Makes sure that the room has a channel: the existing one is kept, and
    /// a new one is created only where the room had none, so that a room
    /// never has two. Returns whether one was created.
    pub fn get_or_create(&mut self, room_id: Id, now: i64) -> (created: bool)
        requires
            old(self).wf(),
        ensures
            final(self).wf(),
            created == !has_channel(old(self)@, room_id),
            final(self)@ == after_get_or_create(old(self)@, room_id, now),
            has_channel(final(self)@, room_id),
    {
        if self.find_channel(room_id).is_some() {
            return false;
        }
        let ghost before = self@;
        self.channels.push(
            Channel {
                room_id,
                subscribers: Vec::new(),
                idle_since: Some(now),
                published: Ghost(Seq::empty()),
                bell: new_bell(1),
            },
        );
        proof {
            let n = before.channels.len() as int;
            assert(self@.channels[n].subscribers =~= Seq::<SubscriberView>::empty());
            assert(self@.channels =~= before.channels.push(fresh_channel(room_id, now)));
            lemma_created_valid(before, room_id, now);
        }
        true
    }

    /// Subscribes to a room: the room's channel is created if need be, and
    /// gains a subscriber that observes every frame published from now on.
    ///
    /// `None`, with nothing changed, only where every subscription identity
    /// has been given out.
    pub fn subscribe(&mut self, room_id: Id, now: i64) -> (r: Option<Subscription>)
        requires
            old(self).wf(),
        ensures
            final(self).wf(),
            old(self)@.next_subscription == u64::MAX ==> r is None && final(self)@ == old(self)@,
            old(self)@.next_subscription < u64::MAX ==> r == Some(
                Subscription { room_id, id: old(self)@.next_subscription },
            ) && final(self)@ == after_subscribe(old(self)@, room_id, now) && is_subscribed(
                final(self)@,
                r->0,
            ),
    {
        if self.next_subscription == u64::MAX {
            return None;
        }
        let ghost before = self@;
        self.get_or_create(room_id, now);
        let ghost w = self@;
        match self.find_channel(room_id) {
            Some(i) => {
                let id = self.next_subscription;
                let ghost joined_at = self.channels@[i as int].published@.len();
                self.channels[i].subscribers.push(
                    Subscriber {
                        id,
                        pending: Vec::new(),
                        lagged: false,
                        joined_at: Ghost(joined_at),
                        received: Ghost(Seq::empty()),
                    },
                );
                self.channels[i].idle_since = None;
                self.next_subscription = id + 1;
                proof {
                    let c = w.channels[i as int];
                    let n = c.subscribers.len() as int;
                    let now_c = self@.channels[i as int];
                    assert(now_c.subscribers[n].pending =~= Seq::<Seq<char>>::empty());
                    assert(now_c.subscribers =~= c.subscribers.push(fresh_subscriber(id, c)));
                    assert(self@.channels =~= w.channels.update(i as int, joined(c, id)));
                    lemma_subscribed_valid(before, room_id, now);
                }
                Some(Subscription { room_id, id })
            },
            None => None,
        }
    }

    /// Publishes a frame to a room: every subscriber of the room that has
    /// room in its buffer receives it, after the frames it already holds. A
    /// subscriber whose buffer is full is marked as lagged and loses its
    /// buffer; the others are not affected. Returns how many subscribers
    /// the frame reached. Without a channel for the room nothing happens.
    pub fn publish(&mut self, room_id: Id, frame: &str) -> (delivered: usize)
        requires
            old(self).wf(),
        ensures
            final(self).wf(),
            final(self)@ == after_publish(old(self)@, room_id, frame@),
            delivered == reach(old(self)@, room_id),
    {
        let ghost before = self@;
        let i = match self.find_channel(room_id) {
            Some(i) => i,
            None => {
                return 0;
            },
        };
        let ghost c0 = before.channels[i as int];
        let ghost reached = |s: SubscriberView| receives(s, before.capacity);
        let cap = self.capacity;
        let n = self.channels[i].subscribers.len();
        let mut delivered: usize = 0;
        let mut j: usize = 0;
        while j < n
            invariant
                j <= n,
                n == c0.subscribers.len(),
                i < before.channels.len(),
                c0 == before.channels[i as int],
                cap == self.capacity,
                reached == |s: SubscriberView| receives(s, before.capacity),
                self@.capacity == before.capacity,
                self@.grace_secs == before.grace_secs,
                self@.next_subscription == before.next_subscription,
                self@.channels.len() == before.channels.len(),
                forall|k: int|
                    0 <= k < before.channels.len() && k != i ==> #[trigger] self@.channels[k]
                        == before.channels[k],
                self@.channels[i as int].room_id == c0.room_id,
                self@.channels[i as int].idle_since == c0.idle_since,
                self@.channels[i as int].published == c0.published,
                self@.channels[i as int].subscribers.len() == n,
                self.channels@[i as int].subscribers@.len() == n,
                forall|k: int|
                    0 <= k < n ==> #[trigger] self@.channels[i as int].subscribers[k] == if k < j {
                        deliver(c0.subscribers[k], frame@, cap as nat)
                    } else {
                        c0.subscribers[k]
                    },
                delivered == c0.subscribers.take(j as int).filter(reached).len(),
                delivered <= j,
            decreases n - j,
        {
            let ghost mid = self@;
            proof {
                let s = c0.subscribers;
                assert(s.take(j as int + 1) =~= s.take(j as int).push(s[j as int]));
                s.take(j as int).lemma_filter_push(s[j as int], reached);
                assert(mid.channels[i as int].subscribers[j as int] == c0.subscribers[j as int]);
            }
            if !self.channels[i].subscribers[j].lagged {
                if self.channels[i].subscribers[j].pending.len() >= cap {
                    self.channels[i].subscribers[j].lagged = true;
                    self.channels[i].subscribers[j].pending = Vec::new();
                    proof {
                        assert(self@.channels[i as int].subscribers[j as int].pending
                            =~= Seq::<Seq<char>>::empty());
                    }
                } else {
                    self.channels[i].subscribers[j].pending.push(frame.to_owned());
                    delivered += 1;
                    proof {
                        assert(self@.channels[i as int].subscribers[j as int].pending
                            =~= c0.subscribers[j as int].pending.push(frame@));
                    }
                }
            }
            proof {
                assert forall|k: int| 0 <= k < n implies #[trigger] self@.channels[i as int].subscribers[k]
                    == if k < j + 1 {
                    deliver(c0.subscribers[k], frame@, cap as nat)
                } else {
                    c0.subscribers[k]
                } by {
                    if k != j {
                        assert(self@.channels[i as int].subscribers[k]
                            == mid.channels[i as int].subscribers[k]);
                    }
                }
                assert forall|k: int|
                    0 <= k < before.channels.len() && k != i implies #[trigger] self@.channels[k]
                    == before.channels[k] by {
                    assert(self@.channels[k] == mid.channels[k]);
                }
            }
            j += 1;
        }
        let ghost history = self.channels@[i as int].published@.push(frame@);
        let ghost filled = self@;
        self.channels[i].published = Ghost(history);
        proof {
            assert forall|k: int| 0 <= k < before.channels.len() && k != i implies #[trigger] self@.channels[k]
                == before.channels[k] by {
                assert(self@.channels[k] == filled.channels[k]);
            }
            assert(c0.subscribers.take(n as int) =~= c0.subscribers);
            let target = published_on(c0, frame@, before.capacity);
            assert(self@.channels[i as int].subscribers =~= target.subscribers);
            assert(self@.channels =~= before.channels.update(i as int, target));
            lemma_published_valid(before, room_id, frame@);
        }
        ring(&self.channels[i].bell);
        delivered
    }

    /// A listener on the bell of a room's channel, which is rung at every
    /// publication to the room; `None` where the room has no channel.
    /// Nothing is promised of what the listener hears: it is a hint to poll,
    /// and what there is to take is what `next_frame` says.
    pub fn bell(&self, room_id: Id) -> (r: Option<tokio::sync::broadcast::Receiver<()>>)
        requires
            self.wf(),
        ensures
            r is Some <==> has_channel(self@, room_id),
    {
        match self.find_channel(room_id) {
            Some(i) => Some(listen(&self.channels[i].bell)),
            None => None,
        }
    }

    fn find_subscriber(&self, i: usize, id: u64) -> (r: Option<usize>)
        requires
            self.wf(),
            i < self@.channels.len(),
        ensures
            r is Some <==> has_subscriber(self@.channels[i as int], id),
            r matches Some(j) ==> j == subscriber_index(self@.channels[i as int], id) && j
                < self@.channels[i as int].subscribers.len() && self@.channels[i as int].subscribers[j as int].id
                == id,
    {
        let mut j: usize = 0;
        while j < self.channels[i].subscribers.len()
            invariant
                self.wf(),
                i < self@.channels.len(),
                j <= self@.channels[i as int].subscribers.len(),
                self@.channels[i as int].subscribers.len() == self.channels@[i as int].subscribers@.len(),
                forall|k: int|
                    0 <= k < j ==> (#[trigger] self@.channels[i as int].subscribers[k]).id != id,
            decreases self@.channels[i as int].subscribers.len() - j,
        {
            if self.channels[i].subscribers[j].id == id {
                assert(self@.channels[i as int].subscribers[j as int].id == id);
                return Some(j);
            }
            j += 1;
        }
        None
    }

    /// Whether the subscription is registered.
    pub fn is_active(&self, sub: Subscription) -> (r: bool)
        requires
            self.wf(),
        ensures
            r == is_subscribed(self@, sub),
    {
        match self.find_channel(sub.room_id) {
            Some(i) => self.find_subscriber(i, sub.id).is_some(),
            None => false,
        }
    }

    /// Polls a subscription: takes the oldest frame waiting in the
    /// subscriber's buffer, if there is one. Frames come out in the order
    /// in which they were published, each once.
    pub fn next_frame(&mut self, sub: Subscription) -> (r: Delivery)
        requires
            old(self).wf(),
        ensures
            final(self).wf(),
            final(self)@ == after_poll(old(self)@, sub),
            match r {
                Delivery::Closed => !is_subscribed(old(self)@, sub),
                Delivery::Lagged => is_subscribed(old(self)@, sub) && subscriber_of(
                    channel_of(old(self)@, sub.room_id),
                    sub.id,
                ).lagged,
                Delivery::Empty => is_subscribed(old(self)@, sub) && !frame_waiting(
                    old(self)@,
                    sub,
                ) && !subscriber_of(channel_of(old(self)@, sub.room_id), sub.id).lagged,
                Delivery::Frame(frame) => frame_waiting(old(self)@, sub) && frame@ == subscriber_of(
                    channel_of(old(self)@, sub.room_id),
                    sub.id,
                ).pending[0],
            },
    {
        let ghost before = self@;
        let i = match self.find_channel(sub.room_id) {
            Some(i) => i,
            None => {
                return Delivery::Closed;
            },
        };
        let j = match self.find_subscriber(i, sub.id) {
            Some(j) => j,
            None => {
                return Delivery::Closed;
            },
        };
        if self.channels[i].subscribers[j].lagged {
            return Delivery::Lagged;
        }
        if self.channels[i].subscribers[j].pending.len() == 0 {
            return Delivery::Empty;
        }
        let frame = self.channels[i].subscribers[j].pending.remove(0);
        let ghost taken = self.channels@[i as int].subscribers@[j as int].received@.push(frame@);
        self.channels[i].subscribers[j].received = Ghost(taken);
        proof {
            let c = before.channels[i as int];
            let s = c.subscribers[j as int];
            let now_s = self@.channels[i as int].subscribers[j as int];
            assert(now_s.pending =~= s.pending.skip(1));
            assert(self@.channels[i as int].subscribers =~= c.subscribers.update(
                j as int,
                took(s),
            ));
            assert(self@.channels =~= before.channels.update(
                i as int,
                (ChannelView { subscribers: c.subscribers.update(j as int, took(s)), ..c }),
            ));
            lemma_polled_valid(before, sub);
        }
        Delivery::Frame(frame)
    }

    /// Releases a subscription at time `now`. A channel that loses its last
    /// subscriber is marked idle since `now`. Returns whether the
    /// subscription was registered.
    pub fn unsubscribe(&mut self, sub: Subscription, now: i64) -> (removed: bool)
        requires
            old(self).wf(),
        ensures
            final(self).wf(),
            removed == is_subscribed(old(self)@, sub),
            final(self)@ == after_unsubscribe(old(self)@, sub, now),
            !is_subscribed(final(self)@, sub),
    {
        let ghost before = self@;
        proof {
            lemma_unsubscribed_valid(before, sub, now);
        }
        let i = match self.find_channel(sub.room_id) {
            Some(i) => i,
            None => {
                return false;
            },
        };
        let j = match self.find_subscriber(i, sub.id) {
            Some(j) => j,
            None => {
                return false;
            },
        };
        self.channels[i].subscribers.remove(j);
        if self.channels[i].subscribers.len() == 0 {
            self.channels[i].idle_since = Some(now);
        } else {
            self.channels[i].idle_since = None;
        }
        proof {
            let c = before.channels[i as int];
            assert(self@.channels[i as int].subscribers =~= c.subscribers.remove(j as int));
            assert(self@.channels =~= before.channels.update(i as int, left(c, sub.id, now)));
        }
        true
    }

    /// Evicts, at time `now`, every channel that has no subscriber and has
    /// been idle for the grace period. The other channels are kept as they
    /// are, in their order. Returns how many were evicted.
    pub fn evict_idle(&mut self, now: i64) -> (evicted: usize)
        requires
            old(self).wf(),
        ensures
            final(self).wf(),
            final(self)@ == after_evict(old(self)@, now),
            evicted == old(self)@.channels.len() - final(self)@.channels.len(),
    {
        let ghost before = self@;
        let ghost keep = |c: ChannelView| !expired(c, now, before.grace_secs);
        let ghost mut k: int = 0;
        let mut i: usize = 0;
        let mut evicted: usize = 0;
        let grace = self.grace_secs;
        let total = self.channels.len();
        proof {
            assert(self@.channels =~= before.channels.take(0).filter(keep) + before.channels.skip(
                0,
            ));
        }
        while i < self.channels.len()
            invariant
                0 <= k <= before.channels.len(),
                total == before.channels.len(),
                keep == |c: ChannelView| !expired(c, now, before.grace_secs),
                grace == before.grace_secs,
                self@.capacity == before.capacity,
                self@.grace_secs == before.grace_secs,
                self@.next_subscription == before.next_subscription,
                i == before.channels.take(k).filter(keep).len(),
                evicted == k - i,
                self@.channels == before.channels.take(k).filter(keep) + before.channels.skip(k),
            decreases before.channels.len() - k,
        {
            let ghost mid = self@;
            proof {
                let s = before.channels;
                assert(s.take(k + 1) =~= s.take(k).push(s[k]));
                s.take(k).lemma_filter_push(s[k], keep);
                assert(self@.channels[i as int].subscribers.len()
                    == self.channels@[i as int].subscribers@.len());
            }
            let due = self.channels[i].subscribers.len() == 0 && match self.channels[i].idle_since {
                Some(since) => now as i128 - since as i128 >= grace as i128,
                None => false,
            };
            if due {
                self.channels.remove(i);
                evicted += 1;
                proof {
                    assert(self@.channels =~= mid.channels.remove(i as int));
                }
            } else {
                i += 1;
            }
            proof {
                k = k + 1;
            }
        }
        proof {
            lemma_evicted_valid(before, now);
        }
        evicted
    }
}

/// Two subscribers of one room see one history. What each has observed is
/// exactly what the room published since it joined, in publication order
/// and without gaps; so the view of the one that joined later is the tail
/// of the other's view.
pub proof fn law_same_order(v: RegistryView, room_id: Id, first: u64, second: u64)
    requires
        valid_registry(v),
        has_channel(v, room_id),
        has_subscriber(channel_of(v, room_id), first),
        has_subscriber(channel_of(v, room_id), second),
        !subscriber_of(channel_of(v, room_id), first).lagged,
        !subscriber_of(channel_of(v, room_id), second).lagged,
        subscriber_of(channel_of(v, room_id), first).joined_at <= subscriber_of(
            channel_of(v, room_id),
            second,
        ).joined_at,
    ensures
        ({
            let c = channel_of(v, room_id);
            let a = subscriber_of(c, first);
            let b = subscriber_of(c, second);
            &&& observed(a) == c.published.skip(a.joined_at as int)
            &&& observed(b) == c.published.skip(b.joined_at as int)
            &&& observed(b) == observed(a).skip(b.joined_at - a.joined_at)
        }),
{
}

/// A published frame is observed by every subscriber of the room that has
/// room for it, after everything that the subscriber had observed before;
/// the registry stays consistent, so all of them keep seeing one history.
pub proof fn law_publish_observed(v: RegistryView, room_id: Id, frame: Seq<char>, id: u64)
    requires
        valid_registry(v),
        has_channel(v, room_id),
        has_subscriber(channel_of(v, room_id), id),
        receives(subscriber_of(channel_of(v, room_id), id), v.capacity),
    ensures
        valid_registry(after_publish(v, room_id, frame)),
        has_channel(after_publish(v, room_id, frame), room_id),
        has_subscriber(channel_of(after_publish(v, room_id, frame), room_id), id),
        observed(subscriber_of(channel_of(after_publish(v, room_id, frame), room_id), id))
            == observed(subscriber_of(channel_of(v, room_id), id)).push(frame),
        !subscriber_of(channel_of(after_publish(v, room_id, frame), room_id), id).lagged,
{
    lemma_published_valid(v, room_id, frame);
    let w = after_publish(v, room_id, frame);
    let i = channel_index(v, room_id);
    let c = v.channels[i];
    let j = subscriber_index(c, id);
    let s = c.subscribers[j];
    let c2 = w.channels[i];
    assert(c2.subscribers[j] == deliver(s, frame, v.capacity));
}

/// Frames come out in the order in which they were published, each once.
/// The frame that a poll yields is the next one of the room's history after
/// those the subscriber has taken; the poll moves it from the buffer to the
/// frames taken, and leaves what the subscriber has observed as it was.
pub proof fn law_frames_in_publication_order(v: RegistryView, sub: Subscription)
    requires
        valid_registry(v),
        frame_waiting(v, sub),
    ensures
        valid_registry(after_poll(v, sub)),
        ({
            let c = channel_of(v, sub.room_id);
            let s = subscriber_of(c, sub.id);
            let c2 = channel_of(after_poll(v, sub), sub.room_id);
            &&& s.joined_at + s.received.len() < c.published.len()
            &&& s.pending[0] == c.published[(s.joined_at + s.received.len()) as int]
            &&& has_channel(after_poll(v, sub), sub.room_id)
            &&& has_subscriber(c2, sub.id)
            &&& subscriber_of(c2, sub.id) == took(s)
            &&& observed(took(s)) == observed(s)
        }),
{
    lemma_polled_valid(v, sub);
    let w = after_poll(v, sub);
    let i = channel_index(v, sub.room_id);
    let c = v.channels[i];
    let j = subscriber_index(c, sub.id);
    let s = c.subscribers[j];
    assert(observed(s)[s.received.len() as int] == s.pending[0]);
    assert(observed(s).len() == c.published.len() - s.joined_at);
    let c2 = w.channels[i];
    assert(c2.subscribers[j] == took(s));
}

/// A subscription keeps the registry consistent and registers the
/// subscriber it returns.
pub proof fn lemma_subscribed_valid(v: RegistryView, room_id: Id, now: i64)
    requires
        valid_registry(v),
        v.next_subscription < u64::MAX,
    ensures
        valid_registry(after_subscribe(v, room_id, now)),
        is_subscribed(
            after_subscribe(v, room_id, now),
            Subscription { room_id, id: v.next_subscription },
        ),
{
    lemma_created_valid(v, room_id, now);
    let w = after_get_or_create(v, room_id, now);
    let i = channel_index(w, room_id);
    let id = v.next_subscription;
    let c = w.channels[i];
    let c2 = joined(c, id);
    let x = after_subscribe(v, room_id, now);
    let n = c.subscribers.len() as int;
    assert(c2.subscribers[n] == fresh_subscriber(id, c));
    assert(observed(fresh_subscriber(id, c)) =~= c.published.skip(c.published.len() as int));
    assert(x.channels[i].room_id == room_id);
}

proof fn lemma_published_valid(v: RegistryView, room_id: Id, frame: Seq<char>)
    requires
        valid_registry(v),
    ensures
        valid_registry(after_publish(v, room_id, frame)),
{
    if has_channel(v, room_id) {
        let i = channel_index(v, room_id);
        let c = v.channels[i];
        let c2 = published_on(c, frame, v.capacity);
        let x = after_publish(v, room_id, frame);
        assert forall|a: int| 0 <= a < x.channels.len() implies valid_channel(
            #[trigger] x.channels[a],
            x,
        ) by {
            if a == i {
                assert forall|j: int| 0 <= j < c2.subscribers.len() implies valid_subscriber(
                    #[trigger] c2.subscribers[j],
                    c2,
                    x,
                ) by {
                    let s = c.subscribers[j];
                    if receives(s, v.capacity) {
                        assert(c.published.skip(s.joined_at as int).push(frame)
                            =~= c.published.push(frame).skip(s.joined_at as int));
                    }
                }
            }
        }
    }
}

proof fn lemma_polled_valid(v: RegistryView, sub: Subscription)
    requires
        valid_registry(v),
    ensures
        valid_registry(after_poll(v, sub)),
{
    if frame_waiting(v, sub) {
        let i = channel_index(v, sub.room_id);
        let c = v.channels[i];
        let j0 = subscriber_index(c, sub.id);
        let s0 = c.subscribers[j0];
        assert(observed(took(s0)) =~= observed(s0));
    }
}

proof fn lemma_unsubscribed_valid(v: RegistryView, sub: Subscription, now: i64)
    requires
        valid_registry(v),
    ensures
        valid_registry(after_unsubscribe(v, sub, now)),
        !is_subscribed(after_unsubscribe(v, sub, now), sub),
{
}

proof fn lemma_evicted_valid(v: RegistryView, now: i64)
    requires
        valid_registry(v),
    ensures
        valid_registry(after_evict(v, now)),
{
    let keep = |c: ChannelView| !expired(c, now, v.grace_secs);
    lemma_kept_channels(v.channels, keep);
}

proof fn lemma_kept_channels(s: Seq<ChannelView>, keep: spec_fn(ChannelView) -> bool)
    requires
        forall|i: int, j: int|
            0 <= i < s.len() && 0 <= j < s.len() && i != j ==> (#[trigger] s[i]).room_id != (
            #[trigger] s[j]).room_id,
    ensures
        forall|i: int, j: int|
            0 <= i < s.filter(keep).len() && 0 <= j < s.filter(keep).len() && i != j ==> (
            #[trigger] s.filter(keep)[i]).room_id != (#[trigger] s.filter(keep)[j]).room_id,
        forall|i: int| 0 <= i < s.filter(keep).len() ==> s.contains(#[trigger] s.filter(keep)[i]),
    decreases s.len(),
{
    reveal(Seq::filter);
    if s.len() > 0 {
        let t = s.drop_last();
        lemma_kept_channels(t, keep);
    }
}

proof fn lemma_created_valid(v: RegistryView, room_id: Id, now: i64)
    requires
        valid_registry(v),
    ensures
        valid_registry(after_get_or_create(v, room_id, now)),
        has_channel(after_get_or_create(v, room_id, now), room_id),
{
    let w = after_get_or_create(v, room_id, now);
    if !has_channel(v, room_id) {
        let n = v.channels.len() as int;
        assert(w.channels[n].room_id == room_id);
    }
}
} // verus!
