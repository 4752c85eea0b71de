use chat_backend::auth::models::Message;
use chat_backend::error::{ApiError, Invalid};
use chat_backend::ids::Id;
use chat_backend::message_log::MessageLog;
use chat_backend::models::messages::SendMessageInput;
use chat_backend::route_handlers::users::{get_direct_messages, send_direct_message};

fn id(value: u128) -> Id {
    Id { value }
}

fn text(content: &str) -> String {
    content.to_string()
}

#[test]
fn append_returns_the_populated_record() {
    let mut log = MessageLog::new();
    let m = log.append(id(100), id(1), text("hello"), 50);
    assert_eq!(m.id, id(0));
    assert_eq!(m.room_id, id(100));
    assert_eq!(m.author_id, id(1));
    assert_eq!(m.content, "hello");
    assert_eq!(m.created_at, 50);
    assert_eq!(m.edited_at, None);
    assert_eq!(log.list_by_room(id(100)), vec![m]);
}

#[test]
fn identities_increase_with_every_append() {
    let mut log = MessageLog::new();
    let a = log.append(id(100), id(1), text("a"), 1);
    let b = log.append_direct(id(1), id(2), text("b"), 1);
    let c = log.append(id(200), id(1), text("c"), 1);
    assert_eq!((a.id, b.id, c.id), (id(0), id(1), id(2)));
}

#[test]
fn creation_times_never_decrease_when_the_clock_falls_back() {
    let mut log = MessageLog::new();
    let a = log.append(id(100), id(1), text("a"), 50);
    let b = log.append(id(100), id(2), text("b"), 40);
    let c = log.append(id(100), id(1), text("c"), 50);
    let d = log.append(id(100), id(1), text("d"), 51);
    assert_eq!((a.created_at, b.created_at, c.created_at, d.created_at), (50, 50, 50, 51));
    let listed = log.list_by_room(id(100));
    assert_eq!(listed, vec![a, b, c, d]);
    for pair in listed.windows(2) {
        assert!(pair[0].created_at <= pair[1].created_at);
        assert!(pair[0].id.value < pair[1].id.value);
    }
}

#[test]
fn rooms_are_listed_apart_in_insertion_order() {
    let mut log = MessageLog::new();
    let a = log.append(id(100), id(1), text("a"), 1);
    let b = log.append(id(200), id(1), text("b"), 2);
    let c = log.append(id(100), id(2), text("c"), 3);
    assert_eq!(log.list_by_room(id(100)), vec![a, c]);
    assert_eq!(log.list_by_room(id(200)), vec![b]);
    assert_eq!(log.list_by_room(id(300)), vec![]);
}

#[test]
fn direct_messages_are_one_conversation_for_both_users() {
    let mut log = MessageLog::new();
    let a = send_direct_message(id(2), id(1), &mut log, SendMessageInput { content: text("hi") }, 5)
        .unwrap();
    let b = send_direct_message(id(1), id(2), &mut log, SendMessageInput { content: text("yo") }, 4)
        .unwrap();
    let c = send_direct_message(id(3), id(1), &mut log, SendMessageInput { content: text("x") }, 6)
        .unwrap();
    assert_eq!(a.sender_id, id(1));
    assert_eq!(a.receiver_id, id(2));
    assert_eq!(a.created_at, 5);
    assert_eq!(b.created_at, 5);
    assert_eq!(get_direct_messages(id(1), id(2), &log), vec![a.clone(), b.clone()]);
    assert_eq!(get_direct_messages(id(2), id(1), &log), vec![a, b]);
    assert_eq!(get_direct_messages(id(3), id(1), &log), vec![c]);
    assert_eq!(get_direct_messages(id(2), id(3), &log), vec![]);
}

#[test]
fn direct_message_to_oneself_is_rejected() {
    let mut log = MessageLog::new();
    let r = send_direct_message(id(1), id(1), &mut log, SendMessageInput { content: text("me") }, 5);
    assert_eq!(r, Err(ApiError::Validation(Invalid::SelfMessage)));
    assert_eq!(get_direct_messages(id(1), id(1), &log), vec![]);
}

#[test]
fn direct_message_is_shown_with_text_identities() {
    let mut log = MessageLog::new();
    let m = log.append_direct(id(1), id(2), text("hi"), 9);
    let shown = Message::of(&m);
    assert_eq!(shown.id, Some(text("00000000-0000-0000-0000-000000000000")));
    assert_eq!(shown.sender_id, Some(text("00000000-0000-0000-0000-000000000001")));
    assert_eq!(shown.recipient_id, Some(text("00000000-0000-0000-0000-000000000002")));
    assert_eq!(shown.content, "hi");
    assert_eq!(shown.sent_at, Some(9));
}

#[test]
fn appends_since_a_mark_are_told_apart() {
    let mut log = MessageLog::new();
    let a = log.append(id(100), id(1), text("a"), 1);
    let mark = log.mark();
    assert_eq!(mark, 1);
    assert_eq!(log.room_messages_since(mark), vec![]);
    let b = log.append(id(200), id(1), text("b"), 2);
    let c = log.append_direct(id(1), id(2), text("c"), 3);
    let d = log.append(id(100), id(2), text("d"), 4);
    assert_eq!(log.room_messages_since(mark), vec![b, d.clone()]);
    assert_eq!(log.direct_messages_since(mark), vec![c]);
    assert_eq!(log.room_messages_since(0).len(), 3);
    assert_eq!(log.room_messages_since(3), vec![d]);
    assert_eq!(log.room_messages_since(log.mark()), vec![]);
    assert_eq!(a.id.value, 0);
}
