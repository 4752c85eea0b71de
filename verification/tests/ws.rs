use chat_backend::auth::handlers::{login, open_session, register, register_user};
use chat_backend::auth::middleware::CurrentUser;
use chat_backend::clock::rfc3339;
use chat_backend::error::{ApiError, Fault, Invalid};
use chat_backend::ids::{direct_channel_id, Id};
use chat_backend::models::rooms::CreateRoomInput;
use chat_backend::models::user::{LoginInput, RegisterInput};
use chat_backend::route_handlers::room::{create_room, get_room_messages, join_room};
use chat_backend::route_handlers::users::get_direct_messages;
use chat_backend::route_handlers::ws::{
    authenticate, handle_dm_socket, handle_socket, ws_dm_handler, ws_handler, Connection,
    ConnectionState, SocketAction, SocketEvent, Target,
};
use chat_backend::state::AppState;

const SECRET: &str = "socket secret";

fn now() -> i64 {
    let since = std::time::SystemTime::now().duration_since(std::time::UNIX_EPOCH).unwrap();
    since.as_secs() as i64
}

fn id(value: u128) -> Id {
    Id { value }
}

fn text(content: &str) -> String {
    content.to_string()
}

fn user(name: &str, value: u128) -> CurrentUser {
    CurrentUser { id: id(value), username: text(name), session_id: id(900 + value) }
}

/// A state with a room of which alice (1) and bob (2) are members.
fn room_with_two_members() -> (AppState, Id) {
    let mut state = AppState::new();
    let room = create_room(id(1), &mut state.directory, CreateRoomInput { name: text("X") }, 5);
    join_room(room.id, id(2), &mut state.directory).unwrap();
    (state, room.id)
}

fn active(state: &mut AppState, room_id: Id, who: CurrentUser) -> Connection {
    let (mut conn, _) = ws_handler(room_id, None, Some("unused")).unwrap();
    let action = handle_socket(&mut conn, state, SocketEvent::Authenticated(Ok(who)), 10);
    assert_eq!(action, SocketAction::Idle);
    assert_eq!(conn.state(), ConnectionState::Active);
    conn
}

#[test]
fn upgrade_takes_the_credential_from_header_or_parameter() {
    let (conn, token) = ws_handler(id(1), Some("Bearer from-header"), Some("from-param")).unwrap();
    assert_eq!(token, "from-header");
    assert_eq!(conn.state(), ConnectionState::Authenticating);
    assert_eq!(conn.target(), Target::Room(id(1)));
    assert_eq!(conn.subscription(), None);
    let (_, token) = ws_handler(id(1), None, Some("from-param")).unwrap();
    assert_eq!(token, "from-param");
    let (_, token) = ws_handler(id(1), Some("Basic zzz"), Some("from-param")).unwrap();
    assert_eq!(token, "from-param");
    let (conn, token) = ws_dm_handler(id(2), Some("Bearer t"), None).unwrap();
    assert_eq!(token, "t");
    assert_eq!(conn.target(), Target::Direct(id(2)));
}

#[test]
fn upgrade_without_credential_is_unauthorized() {
    assert_eq!(ws_handler(id(1), None, None).unwrap_err(), ApiError::Auth);
    assert_eq!(ws_handler(id(1), Some("Basic zzz"), None).unwrap_err(), ApiError::Auth);
    assert_eq!(ws_dm_handler(id(1), None, None).unwrap_err(), ApiError::Auth);
    assert_eq!(Connection::new(Target::Room(id(1))).state(), ConnectionState::Upgrading);
}

#[test]
fn failed_validation_closes_with_an_unauthorized_rejection() {
    let (mut state, room) = room_with_two_members();
    let (mut conn, _) = ws_handler(room, None, Some("t")).unwrap();
    let action =
        handle_socket(&mut conn, &mut state, SocketEvent::Authenticated(Err(ApiError::Internal(Fault::Other))), 10);
    assert_eq!(action, SocketAction::Reject(ApiError::Auth));
    assert_eq!(conn.state(), ConnectionState::Closing);
    assert_eq!(conn.subscription(), None);
    assert_eq!(state.rooms.len(), 0);
}

#[test]
fn a_user_who_is_no_member_is_rejected_before_joining() {
    let (mut state, room) = room_with_two_members();
    let (mut conn, _) = ws_handler(room, None, Some("t")).unwrap();
    let action = handle_socket(
        &mut conn,
        &mut state,
        SocketEvent::Authenticated(Ok(user("mallory", 3))),
        10,
    );
    assert_eq!(action, SocketAction::Reject(ApiError::NotAMember));
    assert_eq!(conn.state(), ConnectionState::Closing);
    assert_eq!(state.rooms.len(), 0);
    assert_eq!(
        handle_socket(&mut conn, &mut state, SocketEvent::Text(text(r#"{"content":"x"}"#)), 11),
        SocketAction::Close
    );
    assert_eq!(get_room_messages(room, id(1), &state.directory, &state.log).unwrap().len(), 0);
}

#[test]
fn a_message_is_persisted_and_then_delivered_to_every_connection() {
    let (mut state, room) = room_with_two_members();
    let mut alice = active(&mut state, room, user("alice", 1));
    let mut bob = active(&mut state, room, user("bob", 2));
    let sent = handle_socket(
        &mut alice,
        &mut state,
        SocketEvent::Text(text(r#"{"content":"hi"}"#)),
        1_546_300_800,
    );
    assert_eq!(sent, SocketAction::Idle);
    let expected = text(
        r#"{"senderId":"00000000-0000-0000-0000-000000000001","username":"alice","content":"hi","createdAt":"2019-01-01T00:00:00Z"}"#,
    );
    assert_eq!(
        handle_socket(&mut alice, &mut state, SocketEvent::Poll, 20),
        SocketAction::Send(expected.clone())
    );
    assert_eq!(
        handle_socket(&mut bob, &mut state, SocketEvent::Poll, 20),
        SocketAction::Send(expected)
    );
    assert_eq!(handle_socket(&mut bob, &mut state, SocketEvent::Poll, 21), SocketAction::Idle);
    let history = get_room_messages(room, id(2), &state.directory, &state.log).unwrap();
    assert_eq!(history.len(), 1);
    assert_eq!(history[0].author_id, id(1));
    assert_eq!(history[0].room_id, room);
    assert_eq!(history[0].content, "hi");
    assert_eq!(history[0].created_at, 1_546_300_800);
}

#[test]
fn every_delivered_frame_is_in_the_log_in_the_same_order() {
    let (mut state, room) = room_with_two_members();
    let mut alice = active(&mut state, room, user("alice", 1));
    let mut bob = active(&mut state, room, user("bob", 2));
    for (i, content) in ["one", "two", "three"].iter().enumerate() {
        let (conn, at) = if i % 2 == 0 { (&mut alice, 100 + i as i64) } else { (&mut bob, 90) };
        let frame = format!(r#"{{"content":"{}"}}"#, content);
        assert_eq!(
            handle_socket(conn, &mut state, SocketEvent::Text(frame), at),
            SocketAction::Idle
        );
    }
    let history = get_room_messages(room, id(1), &state.directory, &state.log).unwrap();
    assert_eq!(history.len(), 3);
    for conn in [&mut alice, &mut bob] {
        for message in history.iter() {
            let action = handle_socket(conn, &mut state, SocketEvent::Poll, 200);
            let frame = match action {
                SocketAction::Send(frame) => frame,
                other => panic!("expected a frame, got {:?}", other),
            };
            let value: serde_json::Value = serde_json::from_str(&frame).unwrap();
            assert_eq!(value["content"], message.content.as_str());
            assert_eq!(value["senderId"], message.author_id.text().as_str());
            assert_eq!(value["createdAt"], rfc3339(message.created_at).unwrap().as_str());
        }
        assert_eq!(handle_socket(conn, &mut state, SocketEvent::Poll, 201), SocketAction::Idle);
    }
}

#[test]
fn malformed_frames_are_ignored() {
    let (mut state, room) = room_with_two_members();
    let mut alice = active(&mut state, room, user("alice", 1));
    for bad in ["", "hello", r#"{"content":1}"#, r#"{"text":"hi"}"#] {
        assert_eq!(
            handle_socket(&mut alice, &mut state, SocketEvent::Text(text(bad)), 30),
            SocketAction::Idle
        );
        assert_eq!(alice.state(), ConnectionState::Active);
    }
    assert_eq!(get_room_messages(room, id(1), &state.directory, &state.log).unwrap().len(), 0);
    assert_eq!(handle_socket(&mut alice, &mut state, SocketEvent::Poll, 31), SocketAction::Idle);
}

#[test]
fn a_message_without_a_presentable_time_is_persisted_but_not_published() {
    let (mut state, room) = room_with_two_members();
    let mut alice = active(&mut state, room, user("alice", 1));
    assert_eq!(
        handle_socket(
            &mut alice,
            &mut state,
            SocketEvent::Text(text(r#"{"content":"late"}"#)),
            i64::MAX
        ),
        SocketAction::Idle
    );
    assert_eq!(get_room_messages(room, id(1), &state.directory, &state.log).unwrap().len(), 1);
    assert_eq!(handle_socket(&mut alice, &mut state, SocketEvent::Poll, 31), SocketAction::Idle);
}

#[test]
fn socket_failure_closes_and_termination_releases_the_subscription() {
    let (mut state, room) = room_with_two_members();
    let mut alice = active(&mut state, room, user("alice", 1));
    let sub = alice.subscription().unwrap();
    assert!(state.rooms.is_active(sub));
    assert_eq!(
        handle_socket(&mut alice, &mut state, SocketEvent::Unreadable, 40),
        SocketAction::Close
    );
    assert_eq!(alice.state(), ConnectionState::Closing);
    assert!(state.rooms.is_active(sub));
    assert_eq!(
        handle_socket(&mut alice, &mut state, SocketEvent::Text(text(r#"{"content":"x"}"#)), 41),
        SocketAction::Close
    );
    assert_eq!(handle_socket(&mut alice, &mut state, SocketEvent::Poll, 41), SocketAction::Close);
    assert_eq!(get_room_messages(room, id(1), &state.directory, &state.log).unwrap().len(), 0);
    assert_eq!(
        handle_socket(&mut alice, &mut state, SocketEvent::Terminated, 42),
        SocketAction::Close
    );
    assert_eq!(alice.state(), ConnectionState::Closed);
    assert_eq!(alice.subscription(), None);
    assert!(!state.rooms.is_active(sub));
    assert_eq!(state.rooms.evict_idle(42 + 59), 0);
    assert_eq!(state.rooms.evict_idle(42 + 60), 1);
    assert_eq!(
        handle_socket(&mut alice, &mut state, SocketEvent::Terminated, 43),
        SocketAction::Close
    );
    assert_eq!(alice.state(), ConnectionState::Closed);
}

#[test]
fn a_failed_send_closes_the_connection() {
    let (mut state, room) = room_with_two_members();
    let mut alice = active(&mut state, room, user("alice", 1));
    assert_eq!(
        handle_socket(&mut alice, &mut state, SocketEvent::SendFailed, 40),
        SocketAction::Close
    );
    assert_eq!(alice.state(), ConnectionState::Closing);
}

#[test]
fn a_lagging_connection_is_closed_and_the_others_go_on() {
    let (mut state, room) = room_with_two_members();
    let mut alice = active(&mut state, room, user("alice", 1));
    let mut bob = active(&mut state, room, user("bob", 2));
    for i in 0..101 {
        assert_eq!(
            handle_socket(
                &mut alice,
                &mut state,
                SocketEvent::Text(text(r#"{"content":"x"}"#)),
                50 + i
            ),
            SocketAction::Idle
        );
        assert!(matches!(
            handle_socket(&mut alice, &mut state, SocketEvent::Poll, 50 + i),
            SocketAction::Send(_)
        ));
    }
    assert_eq!(handle_socket(&mut bob, &mut state, SocketEvent::Poll, 200), SocketAction::Close);
    assert_eq!(bob.state(), ConnectionState::Closing);
    assert_eq!(alice.state(), ConnectionState::Active);
    assert_eq!(get_room_messages(room, id(2), &state.directory, &state.log).unwrap().len(), 101);
}

#[test]
fn a_connection_only_answers_to_steps_of_its_own_kind() {
    let (mut state, room) = room_with_two_members();
    let mut alice = active(&mut state, room, user("alice", 1));
    assert_eq!(
        handle_dm_socket(&mut alice, &mut state, SocketEvent::Text(text(r#"{"content":"x"}"#)), 7),
        SocketAction::Idle
    );
    assert_eq!(handle_dm_socket(&mut alice, &mut state, SocketEvent::Unreadable, 7), SocketAction::Idle);
    assert_eq!(alice.state(), ConnectionState::Active);
    assert_eq!(get_direct_messages(id(1), id(2), &state.log).len(), 0);
    let (mut direct, _) = ws_dm_handler(id(2), None, Some("t")).unwrap();
    assert_eq!(
        handle_socket(&mut direct, &mut state, SocketEvent::Authenticated(Ok(user("alice", 1))), 8),
        SocketAction::Idle
    );
    assert_eq!(direct.state(), ConnectionState::Authenticating);
    let sub = alice.subscription().unwrap();
    assert_eq!(handle_dm_socket(&mut alice, &mut state, SocketEvent::Terminated, 9), SocketAction::Close);
    assert_eq!(alice.state(), ConnectionState::Closed);
    assert!(!state.rooms.is_active(sub));
}

#[test]
fn events_before_authentication_change_nothing() {
    let (mut state, room) = room_with_two_members();
    let (mut conn, _) = ws_handler(room, None, Some("t")).unwrap();
    for event in [
        SocketEvent::Text(text(r#"{"content":"x"}"#)),
        SocketEvent::Poll,
        SocketEvent::Unreadable,
        SocketEvent::SendFailed,
    ] {
        assert_eq!(handle_socket(&mut conn, &mut state, event, 1), SocketAction::Idle);
        assert_eq!(conn.state(), ConnectionState::Authenticating);
    }
    assert_eq!(get_room_messages(room, id(1), &state.directory, &state.log).unwrap().len(), 0);
    let mut active_conn = active(&mut state, room, user("alice", 1));
    assert_eq!(
        handle_socket(
            &mut active_conn,
            &mut state,
            SocketEvent::Authenticated(Ok(user("bob", 2))),
            2
        ),
        SocketAction::Idle
    );
    assert_eq!(active_conn.state(), ConnectionState::Active);
}

#[test]
fn direct_connections_share_the_channel_of_the_pair() {
    let mut state = AppState::new();
    let (mut alice, _) = ws_dm_handler(id(2), None, Some("t")).unwrap();
    let (mut bob, _) = ws_dm_handler(id(1), None, Some("t")).unwrap();
    assert_eq!(
        handle_dm_socket(&mut alice, &mut state, SocketEvent::Authenticated(Ok(user("alice", 1))), 1),
        SocketAction::Idle
    );
    assert_eq!(
        handle_dm_socket(&mut bob, &mut state, SocketEvent::Authenticated(Ok(user("bob", 2))), 1),
        SocketAction::Idle
    );
    let channel = direct_channel_id(id(1), id(2));
    assert_eq!(alice.subscription().unwrap().room_id, channel);
    assert_eq!(bob.subscription().unwrap().room_id, channel);
    assert_eq!(state.rooms.len(), 1);
    assert_eq!(
        handle_dm_socket(
            &mut bob,
            &mut state,
            SocketEvent::Text(text(r#"{"content":"psst"}"#)),
            60
        ),
        SocketAction::Idle
    );
    let expected = text(
        r#"{"senderId":"00000000-0000-0000-0000-000000000002","username":"bob","content":"psst","createdAt":"1970-01-01T00:01:00Z"}"#,
    );
    assert_eq!(
        handle_dm_socket(&mut alice, &mut state, SocketEvent::Poll, 61),
        SocketAction::Send(expected.clone())
    );
    assert_eq!(
        handle_dm_socket(&mut bob, &mut state, SocketEvent::Poll, 61),
        SocketAction::Send(expected)
    );
    let history = get_direct_messages(id(1), id(2), &state.log);
    assert_eq!(history.len(), 1);
    assert_eq!(history[0].sender_id, id(2));
    assert_eq!(history[0].receiver_id, id(1));
    assert_eq!(history[0].content, "psst");
    assert_eq!(
        handle_dm_socket(&mut alice, &mut state, SocketEvent::Unreadable, 62),
        SocketAction::Close
    );
    assert_eq!(
        handle_dm_socket(&mut alice, &mut state, SocketEvent::Terminated, 63),
        SocketAction::Close
    );
    assert_eq!(alice.state(), ConnectionState::Closed);
    assert!(state.rooms.is_active(bob.subscription().unwrap()));
}

#[test]
fn a_direct_connection_to_oneself_is_rejected() {
    let mut state = AppState::new();
    let (mut conn, _) = ws_dm_handler(id(1), None, Some("t")).unwrap();
    assert_eq!(
        handle_dm_socket(&mut conn, &mut state, SocketEvent::Authenticated(Ok(user("alice", 1))), 1),
        SocketAction::Reject(ApiError::Validation(Invalid::SelfMessage))
    );
    assert_eq!(conn.state(), ConnectionState::Closing);
    let (mut conn, _) = ws_dm_handler(id(1), None, Some("t")).unwrap();
    assert_eq!(
        handle_dm_socket(&mut conn, &mut state, SocketEvent::Authenticated(Err(ApiError::Auth)), 1),
        SocketAction::Reject(ApiError::Auth)
    );
}

#[test]
fn authentication_runs_the_two_layer_check() {
    let mut state = AppState::new();
    register_user(&mut state.auth, &text("alice"), Some(text("h")), id(1), 1).unwrap();
    let room = create_room(id(1), &mut state.directory, CreateRoomInput { name: text("X") }, 5);
    let t = now();
    let session = open_session(&mut state.auth, id(1), &text("alice"), id(50), t, t, SECRET).unwrap();

    let (mut bad, _) = ws_handler(room.id, None, Some("garbage")).unwrap();
    assert_eq!(
        authenticate(&mut bad, &mut state, "garbage", SECRET, t),
        SocketAction::Reject(ApiError::Auth)
    );
    assert_eq!(bad.state(), ConnectionState::Closing);

    let (mut good, token) = ws_handler(room.id, None, Some(&session.token)).unwrap();
    assert_eq!(authenticate(&mut good, &mut state, &token, SECRET, t), SocketAction::Idle);
    assert_eq!(good.state(), ConnectionState::Active);
    assert!(state.rooms.is_active(good.subscription().unwrap()));
    assert_eq!(authenticate(&mut good, &mut state, &token, SECRET, t), SocketAction::Idle);
    assert_eq!(state.rooms.len(), 1);

    chat_backend::auth::handlers::logout(&mut state.auth, id(50));
    let (mut revoked, token) = ws_handler(room.id, None, Some(&session.token)).unwrap();
    assert_eq!(
        authenticate(&mut revoked, &mut state, &token, SECRET, t),
        SocketAction::Reject(ApiError::Auth)
    );
}

#[test]
fn end_to_end_two_users_in_a_room() {
    let mut state = AppState::new();
    let alice = register(
        &mut state.auth,
        RegisterInput { username: text("alice"), password: text("a-password") },
    )
    .unwrap();
    let bob = register(
        &mut state.auth,
        RegisterInput { username: text("bob"), password: text("b-password") },
    )
    .unwrap();
    let alice_login = login(
        &mut state.auth,
        LoginInput { username: text("alice"), password: text("a-password") },
        SECRET,
    )
    .unwrap();
    let bob_login = login(
        &mut state.auth,
        LoginInput { username: text("bob"), password: text("b-password") },
        SECRET,
    )
    .unwrap();
    let t = now();
    let room = create_room(alice.id, &mut state.directory, CreateRoomInput { name: text("X") }, t);
    join_room(room.id, bob.id, &mut state.directory).unwrap();

    let (mut a, a_token) = ws_handler(room.id, None, Some(&alice_login.token)).unwrap();
    let header = format!("Bearer {}", bob_login.token);
    let (mut b, b_token) = ws_handler(room.id, Some(&header), None).unwrap();
    assert_eq!(authenticate(&mut a, &mut state, &a_token, SECRET, t), SocketAction::Idle);
    assert_eq!(authenticate(&mut b, &mut state, &b_token, SECRET, t), SocketAction::Idle);

    assert_eq!(
        handle_socket(&mut a, &mut state, SocketEvent::Text(text(r#"{"content":"hi"}"#)), t),
        SocketAction::Idle
    );
    for conn in [&mut a, &mut b] {
        let frame = match handle_socket(conn, &mut state, SocketEvent::Poll, t) {
            SocketAction::Send(frame) => frame,
            other => panic!("expected a frame, got {:?}", other),
        };
        let value: serde_json::Value = serde_json::from_str(&frame).unwrap();
        assert_eq!(value["senderId"], alice.id.text().as_str());
        assert_eq!(value["username"], "alice");
        assert_eq!(value["content"], "hi");
        assert_eq!(value["createdAt"], rfc3339(t).unwrap().as_str());
    }
    let history = get_room_messages(room.id, bob.id, &state.directory, &state.log).unwrap();
    assert_eq!(history.len(), 1);
    assert_eq!(history[0].content, "hi");
    assert_eq!(history[0].author_id, alice.id);
    assert_eq!(history[0].created_at, t);
}
