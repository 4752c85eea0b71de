use chat_backend::hub::{Delivery, RoomRegistry, Subscription, DEFAULT_CAPACITY};
use chat_backend::ids::Id;
use chat_backend::state::{AppState, DEFAULT_GRACE_SECS};

fn id(value: u128) -> Id {
    Id { value }
}

fn frame(text: &str) -> Delivery {
    Delivery::Frame(text.to_string())
}

#[test]
fn a_room_never_has_two_channels() {
    let mut hub = RoomRegistry::new(4, 10);
    assert!(hub.get_or_create(id(1), 0));
    assert!(!hub.get_or_create(id(1), 1));
    assert!(hub.get_or_create(id(2), 2));
    assert_eq!(hub.len(), 2);
    assert!(hub.has_room(id(1)));
    assert!(!hub.has_room(id(3)));
    hub.subscribe(id(1), 3).unwrap();
    hub.subscribe(id(1), 4).unwrap();
    assert_eq!(hub.len(), 2);
}

#[test]
fn subscriptions_get_distinct_identities() {
    let mut hub = RoomRegistry::new(4, 10);
    let a = hub.subscribe(id(1), 0).unwrap();
    let b = hub.subscribe(id(1), 0).unwrap();
    let c = hub.subscribe(id(2), 0).unwrap();
    assert_eq!(a, Subscription { room_id: id(1), id: 0 });
    assert_eq!(b, Subscription { room_id: id(1), id: 1 });
    assert_eq!(c, Subscription { room_id: id(2), id: 2 });
    assert!(hub.is_active(a) && hub.is_active(b) && hub.is_active(c));
    assert!(!hub.is_active(Subscription { room_id: id(2), id: 0 }));
}

#[test]
fn two_subscribers_observe_the_same_frames_in_the_same_order() {
    let mut hub = RoomRegistry::new(8, 10);
    let a = hub.subscribe(id(1), 0).unwrap();
    let b = hub.subscribe(id(1), 0).unwrap();
    assert_eq!(hub.publish(id(1), "one"), 2);
    assert_eq!(hub.publish(id(1), "two"), 2);
    assert_eq!(hub.publish(id(1), "three"), 2);
    for sub in [a, b] {
        assert_eq!(hub.next_frame(sub), frame("one"));
        assert_eq!(hub.next_frame(sub), frame("two"));
        assert_eq!(hub.next_frame(sub), frame("three"));
        assert_eq!(hub.next_frame(sub), Delivery::Empty);
    }
}

#[test]
fn a_later_subscriber_observes_the_tail_of_the_history() {
    let mut hub = RoomRegistry::new(8, 10);
    let a = hub.subscribe(id(1), 0).unwrap();
    hub.publish(id(1), "one");
    let b = hub.subscribe(id(1), 0).unwrap();
    hub.publish(id(1), "two");
    hub.publish(id(1), "three");
    assert_eq!(hub.next_frame(a), frame("one"));
    assert_eq!(hub.next_frame(a), frame("two"));
    assert_eq!(hub.next_frame(b), frame("two"));
    assert_eq!(hub.next_frame(b), frame("three"));
    assert_eq!(hub.next_frame(a), frame("three"));
    assert_eq!(hub.next_frame(b), Delivery::Empty);
}

#[test]
fn frames_stay_in_their_room() {
    let mut hub = RoomRegistry::new(8, 10);
    let a = hub.subscribe(id(1), 0).unwrap();
    let b = hub.subscribe(id(2), 0).unwrap();
    assert_eq!(hub.publish(id(1), "for one"), 1);
    assert_eq!(hub.next_frame(b), Delivery::Empty);
    assert_eq!(hub.next_frame(a), frame("for one"));
}

#[test]
fn publishing_to_a_room_without_channel_or_subscribers_reaches_nobody() {
    let mut hub = RoomRegistry::new(8, 10);
    assert_eq!(hub.publish(id(1), "lost"), 0);
    assert_eq!(hub.len(), 0);
    hub.get_or_create(id(1), 0);
    assert_eq!(hub.publish(id(1), "lost"), 0);
    let a = hub.subscribe(id(1), 0).unwrap();
    assert_eq!(hub.next_frame(a), Delivery::Empty);
}

#[test]
fn a_full_buffer_drops_the_slow_subscriber_and_nobody_else() {
    let mut hub = RoomRegistry::new(2, 10);
    let slow = hub.subscribe(id(1), 0).unwrap();
    let fast = hub.subscribe(id(1), 0).unwrap();
    assert_eq!(hub.publish(id(1), "one"), 2);
    assert_eq!(hub.next_frame(fast), frame("one"));
    assert_eq!(hub.publish(id(1), "two"), 2);
    assert_eq!(hub.next_frame(fast), frame("two"));
    assert_eq!(hub.publish(id(1), "three"), 1);
    assert_eq!(hub.next_frame(fast), frame("three"));
    assert_eq!(hub.next_frame(slow), Delivery::Lagged);
    assert_eq!(hub.publish(id(1), "four"), 1);
    assert_eq!(hub.next_frame(slow), Delivery::Lagged);
    assert_eq!(hub.next_frame(fast), frame("four"));
    assert!(hub.is_active(slow));
    assert!(hub.unsubscribe(slow, 5));
    assert_eq!(hub.next_frame(slow), Delivery::Closed);
}

#[test]
fn a_buffer_holds_exactly_its_capacity() {
    let mut hub = RoomRegistry::new(3, 10);
    let a = hub.subscribe(id(1), 0).unwrap();
    assert_eq!(hub.publish(id(1), "1"), 1);
    assert_eq!(hub.publish(id(1), "2"), 1);
    assert_eq!(hub.publish(id(1), "3"), 1);
    assert_eq!(hub.next_frame(a), frame("1"));
    assert_eq!(hub.publish(id(1), "4"), 1);
    assert_eq!(hub.next_frame(a), frame("2"));
    assert_eq!(hub.next_frame(a), frame("3"));
    assert_eq!(hub.next_frame(a), frame("4"));
    assert_eq!(hub.next_frame(a), Delivery::Empty);
}

#[test]
fn a_registry_without_capacity_drops_every_subscriber_on_publish() {
    let mut hub = RoomRegistry::new(0, 10);
    let a = hub.subscribe(id(1), 0).unwrap();
    assert_eq!(hub.next_frame(a), Delivery::Empty);
    assert_eq!(hub.publish(id(1), "x"), 0);
    assert_eq!(hub.next_frame(a), Delivery::Lagged);
}

#[test]
fn unsubscribing_is_final_and_leaves_the_others() {
    let mut hub = RoomRegistry::new(8, 10);
    let a = hub.subscribe(id(1), 0).unwrap();
    let b = hub.subscribe(id(1), 0).unwrap();
    hub.publish(id(1), "one");
    assert!(hub.unsubscribe(a, 1));
    assert!(!hub.unsubscribe(a, 2));
    assert!(!hub.is_active(a));
    assert_eq!(hub.next_frame(a), Delivery::Closed);
    assert_eq!(hub.publish(id(1), "two"), 1);
    assert_eq!(hub.next_frame(b), frame("one"));
    assert_eq!(hub.next_frame(b), frame("two"));
    assert!(!hub.unsubscribe(Subscription { room_id: id(7), id: 0 }, 3));
}

#[test]
fn idle_channels_are_evicted_after_the_grace_period() {
    let mut hub = RoomRegistry::new(8, 10);
    let a = hub.subscribe(id(1), 0).unwrap();
    let b = hub.subscribe(id(2), 0).unwrap();
    hub.get_or_create(id(3), 95);
    assert_eq!(hub.evict_idle(1_000), 1);
    assert!(!hub.has_room(id(3)));
    assert!(hub.unsubscribe(a, 100));
    assert_eq!(hub.evict_idle(109), 0);
    assert!(hub.has_room(id(1)));
    assert_eq!(hub.evict_idle(110), 1);
    assert!(!hub.has_room(id(1)));
    assert!(hub.has_room(id(2)));
    assert!(hub.is_active(b));
    assert_eq!(hub.evict_idle(i64::MAX), 0);
    assert_eq!(hub.len(), 1);
}

#[test]
fn a_new_subscriber_within_the_grace_period_keeps_the_channel() {
    let mut hub = RoomRegistry::new(8, 10);
    let a = hub.subscribe(id(1), 0).unwrap();
    hub.unsubscribe(a, 100);
    let b = hub.subscribe(id(1), 105).unwrap();
    assert_eq!(hub.evict_idle(200), 0);
    assert!(hub.is_active(b));
    hub.unsubscribe(b, 300);
    assert_eq!(hub.evict_idle(309), 0);
    assert_eq!(hub.evict_idle(310), 1);
    assert_eq!(hub.len(), 0);
}

#[test]
fn eviction_copes_with_clocks_far_apart() {
    let mut hub = RoomRegistry::new(8, 10);
    hub.get_or_create(id(1), i64::MIN);
    hub.get_or_create(id(2), i64::MAX);
    assert_eq!(hub.evict_idle(i64::MAX), 1);
    assert!(hub.has_room(id(2)));
    assert_eq!(hub.evict_idle(i64::MIN), 0);
}

#[test]
fn the_state_starts_empty_with_the_default_limits() {
    let state = AppState::new();
    assert_eq!(state.rooms.len(), 0);
    assert_eq!(state.relationships.len(), 0);
    assert_eq!(DEFAULT_CAPACITY, 100);
    assert_eq!(DEFAULT_GRACE_SECS, 60);
    let mut hub = state.rooms;
    let a = hub.subscribe(id(1), 0).unwrap();
    for _ in 0..100 {
        assert_eq!(hub.publish(id(1), "x"), 1);
    }
    assert_eq!(hub.publish(id(1), "x"), 0);
    assert_eq!(hub.next_frame(a), Delivery::Lagged);
    hub.unsubscribe(a, 0);
    assert_eq!(hub.evict_idle(59), 0);
    assert_eq!(hub.evict_idle(60), 1);
}

#[test]
fn the_bell_of_a_room_rings_at_every_publication() {
    let mut hub = RoomRegistry::new(8, 10);
    assert!(hub.bell(id(1)).is_none());
    let sub = hub.subscribe(id(1), 0).unwrap();
    let mut bell = hub.bell(id(1)).unwrap();
    let mut other = hub.subscribe(id(2), 0).and_then(|_| hub.bell(id(2))).unwrap();
    assert_eq!(bell.try_recv(), Err(tokio::sync::broadcast::error::TryRecvError::Empty));
    hub.publish(id(1), "one");
    assert_eq!(bell.try_recv(), Ok(()));
    assert!(bell.try_recv().is_err());
    assert!(other.try_recv().is_err());
    assert_eq!(hub.next_frame(sub), frame("one"));
    hub.publish(id(1), "two");
    hub.publish(id(1), "three");
    assert_ne!(bell.try_recv(), Err(tokio::sync::broadcast::error::TryRecvError::Empty));
    assert_eq!(hub.next_frame(sub), frame("two"));
    assert_eq!(hub.next_frame(sub), frame("three"));
    hub.unsubscribe(sub, 5);
    assert_eq!(hub.evict_idle(100), 1);
    assert!(hub.bell(id(1)).is_none());
}
