use chat_backend::auth::handlers::register_user;
use chat_backend::auth::middleware::CurrentUser;
use chat_backend::auth::sessions::SessionAuthenticator;
use chat_backend::error::{ApiError, Fault, Invalid, Missing};
use chat_backend::ids::Id;
use chat_backend::message_log::MessageLog;
use chat_backend::models::rooms::{CreateRoomInput, Member, RoomMessageInput};
use chat_backend::room_directory::RoomDirectory;
use chat_backend::route_handlers::messages::{
    get_messages_by_room, post_message_to_room, MessageResponse, PostMessageRequest,
};
use chat_backend::route_handlers::room::{
    create_room, get_room, get_room_messages, join_room, list_my_rooms, list_room_members,
    send_room_message,
};
use chat_backend::route_handlers::rooms::{
    add_room_member, create_room as create_room_with_members, list_room_members as member_ids,
    list_rooms, parse_ids, AddRoomMemberRequest, CreateRoomRequest, RoomResponse,
};

fn id(value: u128) -> Id {
    Id { value }
}

fn text(content: &str) -> String {
    content.to_string()
}

fn users(names: &[(&str, u128)]) -> SessionAuthenticator {
    let mut auth = SessionAuthenticator::new();
    for (name, value) in names {
        register_user(&mut auth, &text(name), Some(text("h")), id(*value), 1).unwrap();
    }
    auth
}

fn current(name: &str, value: u128) -> CurrentUser {
    CurrentUser { id: id(value), username: text(name), session_id: id(999) }
}

#[test]
fn creating_a_room_makes_the_owner_its_first_member() {
    let mut directory = RoomDirectory::new();
    let room = create_room(id(1), &mut directory, CreateRoomInput { name: text("X") }, 10);
    assert_eq!(room.id, id(0));
    assert_eq!(room.name, Some(text("X")));
    assert_eq!(room.owner_id, id(1));
    assert_eq!(room.created_at, 10);
    assert!(room.is_group);
    assert!(directory.has_member(room.id, id(1)));
    assert!(!directory.has_member(room.id, id(2)));
    let second = create_room(id(2), &mut directory, CreateRoomInput { name: text("Y") }, 11);
    assert_eq!(second.id, id(1));
    assert_eq!(list_my_rooms(id(1), &directory), vec![room]);
    assert_eq!(list_my_rooms(id(2), &directory), vec![second]);
}

#[test]
fn room_is_found_by_identity_or_not_found() {
    let mut directory = RoomDirectory::new();
    let room = create_room(id(1), &mut directory, CreateRoomInput { name: text("X") }, 10);
    let info = get_room(room.id, &directory).unwrap();
    assert_eq!(info.id, room.id);
    assert_eq!(info.name, Some(text("X")));
    assert_eq!(info.owner_id, id(1));
    assert_eq!(info.created_at, 10);
    assert_eq!(get_room(id(5), &directory), Err(ApiError::NotFound(Missing::Room)));
}

#[test]
fn joining_twice_is_joining_once() {
    let mut directory = RoomDirectory::new();
    let room = create_room(id(1), &mut directory, CreateRoomInput { name: text("X") }, 10);
    assert_eq!(join_room(room.id, id(2), &mut directory), Ok(()));
    assert_eq!(join_room(room.id, id(2), &mut directory), Ok(()));
    assert_eq!(directory.members_of(room.id), vec![id(1), id(2)]);
    assert_eq!(list_my_rooms(id(2), &directory), vec![room]);
}

#[test]
fn joining_a_room_that_is_missing_is_not_found() {
    let mut directory = RoomDirectory::new();
    assert_eq!(join_room(id(0), id(2), &mut directory), Err(ApiError::NotFound(Missing::Room)));
    assert!(!directory.has_member(id(0), id(2)));
}

#[test]
fn only_members_write_and_read_a_room() {
    let mut directory = RoomDirectory::new();
    let mut log = MessageLog::new();
    let room = create_room(id(1), &mut directory, CreateRoomInput { name: text("X") }, 10);
    let sent = send_room_message(
        room.id,
        id(1),
        &directory,
        &mut log,
        RoomMessageInput { content: text("hi") },
        20,
    )
    .unwrap();
    assert_eq!(sent.author_id, id(1));
    assert_eq!(sent.content, "hi");
    assert_eq!(sent.created_at, 20);
    let refused = send_room_message(
        room.id,
        id(2),
        &directory,
        &mut log,
        RoomMessageInput { content: text("let me in") },
        21,
    );
    assert_eq!(refused, Err(ApiError::NotAMember));
    assert_eq!(get_room_messages(room.id, id(1), &directory, &log), Ok(vec![sent]));
    assert_eq!(get_room_messages(room.id, id(2), &directory, &log), Err(ApiError::NotAMember));
    assert_eq!(ApiError::NotAMember.status(), 401);
    assert_eq!(ApiError::NotAMember.message(), "You are not in this room");
}

#[test]
fn room_members_are_listed_with_their_names() {
    let auth = users(&[("alice", 1), ("bob", 2)]);
    let mut directory = RoomDirectory::new();
    let room = create_room(id(1), &mut directory, CreateRoomInput { name: text("X") }, 10);
    join_room(room.id, id(2), &mut directory).unwrap();
    join_room(room.id, id(3), &mut directory).unwrap();
    assert_eq!(
        list_room_members(room.id, &directory, &auth),
        vec![
            Member { id: id(1), username: text("alice") },
            Member { id: id(2), username: text("bob") }
        ]
    );
    assert_eq!(list_room_members(id(9), &directory, &auth), vec![]);
    assert_eq!(
        member_ids(&directory, room.id),
        vec![
            text("00000000-0000-0000-0000-000000000001"),
            text("00000000-0000-0000-0000-000000000002"),
            text("00000000-0000-0000-0000-000000000003")
        ]
    );
}

#[test]
fn member_identities_parse_together_or_not_at_all() {
    assert_eq!(parse_ids(&vec![]), Some(vec![]));
    assert_eq!(
        parse_ids(&vec![id(1).text(), id(2).text()]),
        Some(vec![id(1), id(2)])
    );
    assert_eq!(parse_ids(&vec![id(1).text(), text("two")]), None);
}

#[test]
fn group_room_is_created_with_its_members() {
    let auth = users(&[("alice", 1), ("bob", 2), ("carol", 3)]);
    let mut directory = RoomDirectory::new();
    let resp = create_room_with_members(
        &mut directory,
        &auth,
        id(1),
        CreateRoomRequest {
            name: Some(text("team")),
            is_group: true,
            member_ids: vec![id(2).text(), id(3).text(), id(2).text()],
        },
        7,
    )
    .unwrap();
    assert_eq!(
        resp,
        RoomResponse {
            id: text("00000000-0000-0000-0000-000000000000"),
            name: Some(text("team")),
            is_group: true
        }
    );
    assert_eq!(directory.members_of(id(0)), vec![id(2), id(3), id(1)]);
    let room = directory.find_room(id(0)).unwrap();
    assert_eq!(room.owner_id, id(1));
    assert_eq!(room.created_at, 7);
}

#[test]
fn group_room_may_go_without_a_name() {
    let auth = users(&[("alice", 1)]);
    let mut directory = RoomDirectory::new();
    let resp = create_room_with_members(
        &mut directory,
        &auth,
        id(1),
        CreateRoomRequest { name: None, is_group: true, member_ids: vec![] },
        7,
    )
    .unwrap();
    assert_eq!(resp.name, None);
    assert_eq!(directory.members_of(id(0)), vec![id(1)]);
}

#[test]
fn direct_room_is_created_once_per_pair() {
    let auth = users(&[("alice", 1), ("bob", 2)]);
    let mut directory = RoomDirectory::new();
    let first = create_room_with_members(
        &mut directory,
        &auth,
        id(1),
        CreateRoomRequest { name: Some(text("ignored")), is_group: false, member_ids: vec![id(2).text()] },
        7,
    )
    .unwrap();
    assert_eq!(
        first,
        RoomResponse {
            id: text("00000000-0000-0000-0000-000000000000"),
            name: Some(text("dm")),
            is_group: false
        }
    );
    let again = create_room_with_members(
        &mut directory,
        &auth,
        id(1),
        CreateRoomRequest { name: None, is_group: false, member_ids: vec![id(2).text()] },
        8,
    )
    .unwrap();
    assert_eq!(again.id, first.id);
    assert_eq!(again.name, Some(text("bob")));
    assert!(!again.is_group);
    let from_bob = create_room_with_members(
        &mut directory,
        &auth,
        id(2),
        CreateRoomRequest { name: None, is_group: false, member_ids: vec![id(1).text()] },
        9,
    )
    .unwrap();
    assert_eq!(from_bob.id, first.id);
    assert_eq!(from_bob.name, Some(text("alice")));
    assert_eq!(directory.find_room(id(1)), None);
}

#[test]
fn malformed_member_identity_rejects_the_request_before_any_change() {
    let auth = users(&[("alice", 1)]);
    let mut directory = RoomDirectory::new();
    let r = create_room_with_members(
        &mut directory,
        &auth,
        id(1),
        CreateRoomRequest {
            name: Some(text("team")),
            is_group: true,
            member_ids: vec![id(2).text(), text("nobody")],
        },
        7,
    );
    assert_eq!(r, Err(ApiError::Validation(Invalid::MalformedId)));
    assert_eq!(directory.find_room(id(0)), None);
    assert_eq!(list_my_rooms(id(1), &directory), vec![]);
}

#[test]
fn rooms_are_listed_under_the_right_names() {
    let auth = users(&[("alice", 1), ("bob", 2)]);
    let mut directory = RoomDirectory::new();
    create_room_with_members(
        &mut directory,
        &auth,
        id(1),
        CreateRoomRequest { name: Some(text("team")), is_group: true, member_ids: vec![id(2).text()] },
        7,
    )
    .unwrap();
    create_room_with_members(
        &mut directory,
        &auth,
        id(1),
        CreateRoomRequest { name: None, is_group: false, member_ids: vec![id(2).text()] },
        8,
    )
    .unwrap();
    create_room_with_members(
        &mut directory,
        &auth,
        id(1),
        CreateRoomRequest { name: None, is_group: false, member_ids: vec![id(5).text()] },
        9,
    )
    .unwrap();
    let for_alice = list_rooms(&directory, &auth, id(1));
    assert_eq!(
        for_alice,
        vec![
            RoomResponse { id: id(0).text(), name: Some(text("team")), is_group: true },
            RoomResponse { id: id(1).text(), name: Some(text("bob")), is_group: false },
            RoomResponse { id: id(2).text(), name: None, is_group: false },
        ]
    );
    let for_bob = list_rooms(&directory, &auth, id(2));
    assert_eq!(
        for_bob,
        vec![
            RoomResponse { id: id(0).text(), name: Some(text("team")), is_group: true },
            RoomResponse { id: id(1).text(), name: Some(text("alice")), is_group: false },
        ]
    );
    assert_eq!(list_rooms(&directory, &auth, id(9)), vec![]);
}

#[test]
fn members_are_added_by_text_identity() {
    let mut directory = RoomDirectory::new();
    let room = create_room(id(1), &mut directory, CreateRoomInput { name: text("X") }, 10);
    let added = add_room_member(
        &mut directory,
        room.id,
        AddRoomMemberRequest { user_id: id(2).text() },
    )
    .unwrap();
    assert_eq!(added.status, "member_added");
    assert_eq!(added.room_id, room.id);
    assert_eq!(added.user_id, id(2));
    add_room_member(&mut directory, room.id, AddRoomMemberRequest { user_id: id(2).text() })
        .unwrap();
    assert_eq!(directory.members_of(room.id), vec![id(1), id(2)]);
    assert_eq!(
        add_room_member(&mut directory, room.id, AddRoomMemberRequest { user_id: text("x") }),
        Err(ApiError::Validation(Invalid::MalformedId))
    );
    assert_eq!(
        add_room_member(&mut directory, id(8), AddRoomMemberRequest { user_id: id(2).text() }),
        Err(ApiError::NotFound(Missing::Room))
    );
}

#[test]
fn messages_are_shown_with_text_identities_and_times() {
    let mut directory = RoomDirectory::new();
    let mut log = MessageLog::new();
    let room = create_room(id(1), &mut directory, CreateRoomInput { name: text("X") }, 10);
    let alice = current("alice", 1);
    let mallory = current("mallory", 6);
    assert_eq!(
        post_message_to_room(
            &mut log,
            &directory,
            &alice,
            room.id,
            PostMessageRequest { content: text("hi") },
            1_546_300_800
        ),
        Ok(())
    );
    assert_eq!(
        post_message_to_room(
            &mut log,
            &directory,
            &mallory,
            room.id,
            PostMessageRequest { content: text("hi") },
            1_546_300_801
        ),
        Err(ApiError::NotAMember)
    );
    assert_eq!(
        get_messages_by_room(&log, &directory, &alice, room.id),
        Ok(vec![MessageResponse {
            id: text("00000000-0000-0000-0000-000000000000"),
            sender_id: text("00000000-0000-0000-0000-000000000001"),
            content: text("hi"),
            created_at: text("2019-01-01T00:00:00Z"),
        }])
    );
    assert_eq!(get_messages_by_room(&log, &directory, &mallory, room.id), Err(ApiError::NotAMember));
}

#[test]
fn a_message_without_a_presentable_time_fails_the_listing() {
    let mut directory = RoomDirectory::new();
    let mut log = MessageLog::new();
    let room = create_room(id(1), &mut directory, CreateRoomInput { name: text("X") }, 10);
    let alice = current("alice", 1);
    post_message_to_room(
        &mut log,
        &directory,
        &alice,
        room.id,
        PostMessageRequest { content: text("late") },
        i64::MAX,
    )
    .unwrap();
    assert_eq!(get_messages_by_room(&log, &directory, &alice, room.id), Err(ApiError::Internal(Fault::Other)));
    assert_eq!(get_room_messages(room.id, id(1), &directory, &log).unwrap().len(), 1);
}
