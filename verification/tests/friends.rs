use chat_backend::auth::handlers::register_user;
use chat_backend::auth::middleware::CurrentUser;
use chat_backend::auth::sessions::SessionAuthenticator;
use chat_backend::error::{ApiError, Fault, Invalid, Missing};
use chat_backend::ids::Id;
use chat_backend::models::relationships::{RelationshipGraph, Status};
use chat_backend::route_handlers::friendships::{
    add_friend, friends_of, list_friends, AddFriendRequest, FriendResponse,
};
use chat_backend::models::user::SimpleUser;
use chat_backend::route_handlers::relationships::{
    accept_friend_request as accept, block_user, pending_users, send_friend_request,
    RelationshipResult,
};
use chat_backend::route_handlers::req_friends::{
    accept_friend_request, add_friend_request, delete_friend_request, get_friend_requests,
    list_friends as list_friends_of, FriendRequestPayload, FriendRequestRow,
};

fn id(value: u128) -> Id {
    Id { value }
}

fn text(content: &str) -> String {
    content.to_string()
}

fn users(names: &[(&str, u128)]) -> SessionAuthenticator {
    let mut auth = SessionAuthenticator::new();
    for (name, value) in names {
        register_user(&mut auth, &text(name), Some(text("h")), id(*value), 1).unwrap();
    }
    auth
}

fn current(name: &str, value: u128) -> CurrentUser {
    CurrentUser { id: id(value), username: text(name), session_id: id(999) }
}

fn shown(name: &str, value: u128) -> FriendResponse {
    FriendResponse { id: Some(id(value).text()), username: Some(text(name)) }
}

#[test]
fn end_to_end_request_and_accept_lists_each_for_the_other() {
    let auth = users(&[("alice", 1), ("bob", 2)]);
    let mut graph = RelationshipGraph::new();
    assert_eq!(send_friend_request(id(2), id(1), &mut graph, 5), Ok(RelationshipResult::RequestSent));
    assert_eq!(accept(id(1), id(2), &mut graph), Ok(RelationshipResult::Friends));
    assert_eq!(list_friends(&graph, &auth, &current("alice", 1)), vec![shown("bob", 2)]);
    assert_eq!(list_friends(&graph, &auth, &current("bob", 2)), vec![shown("alice", 1)]);
    assert_eq!(list_friends_of(&graph, &auth, id(1)), vec![shown("bob", 2)]);
    assert_eq!(friends_of(&graph, &auth, id(3)), vec![]);
}

#[test]
fn friends_who_are_not_registered_are_not_shown() {
    let auth = users(&[("alice", 1)]);
    let mut graph = RelationshipGraph::new();
    send_friend_request(id(2), id(1), &mut graph, 5).unwrap();
    accept(id(1), id(2), &mut graph).unwrap();
    assert_eq!(friends_of(&graph, &auth, id(1)), vec![]);
    assert_eq!(friends_of(&graph, &auth, id(2)), vec![shown("alice", 1)]);
}

#[test]
fn befriending_by_text_identity_begins_as_a_request() {
    let mut graph = RelationshipGraph::new();
    let alice = current("alice", 1);
    assert_eq!(
        add_friend(&mut graph, &alice, AddFriendRequest { friend_id: id(2).text() }, 5),
        Ok(RelationshipResult::RequestSent)
    );
    assert_eq!(graph.edge_between(id(1), id(2)).unwrap().status, Status::Pending);
    assert_eq!(
        add_friend(&mut graph, &alice, AddFriendRequest { friend_id: text("bob") }, 5),
        Err(ApiError::Validation(Invalid::MalformedId))
    );
    assert_eq!(
        add_friend(&mut graph, &alice, AddFriendRequest { friend_id: id(1).text() }, 5),
        Err(ApiError::Validation(Invalid::SelfRequest))
    );
    assert_eq!(graph.len(), 1);
}

#[test]
fn asking_a_friend_again_is_a_conflict() {
    let mut graph = RelationshipGraph::new();
    assert_eq!(
        add_friend_request(&mut graph, id(1), FriendRequestPayload { friend_id: id(2) }, 5),
        Ok(())
    );
    assert_eq!(
        add_friend_request(&mut graph, id(2), FriendRequestPayload { friend_id: id(1) }, 6),
        Ok(())
    );
    assert_eq!(graph.len(), 1);
    assert_eq!(accept_friend_request(&mut graph, id(2), id(1)), Ok(()));
    assert_eq!(
        add_friend_request(&mut graph, id(1), FriendRequestPayload { friend_id: id(2) }, 7),
        Err(ApiError::Conflict)
    );
    assert_eq!(
        add_friend_request(&mut graph, id(1), FriendRequestPayload { friend_id: id(1) }, 7),
        Err(ApiError::Validation(Invalid::SelfRequest))
    );
    assert_eq!(graph.edge_between(id(1), id(2)).unwrap().status, Status::Friends);
}

#[test]
fn asking_across_a_block_changes_nothing() {
    let mut graph = RelationshipGraph::new();
    block_user(id(2), id(1), &mut graph, 1).unwrap();
    assert_eq!(
        add_friend_request(&mut graph, id(1), FriendRequestPayload { friend_id: id(2) }, 5),
        Ok(())
    );
    assert_eq!(graph.edge_between(id(1), id(2)).unwrap().status, Status::Blocked);
}

#[test]
fn pending_requests_are_shown_with_name_and_time() {
    let auth = users(&[("alice", 1), ("bob", 2)]);
    let mut graph = RelationshipGraph::new();
    add_friend_request(&mut graph, id(2), FriendRequestPayload { friend_id: id(1) }, 1_546_300_800)
        .unwrap();
    add_friend_request(&mut graph, id(3), FriendRequestPayload { friend_id: id(1) }, 1_546_300_801)
        .unwrap();
    assert_eq!(
        get_friend_requests(&graph, &auth, id(1)),
        Ok(vec![FriendRequestRow {
            id: id(2).text(),
            sender_id: id(2).text(),
            sender_username: text("bob"),
            created_at: text("2019-01-01T00:00:00Z"),
        }])
    );
    assert_eq!(get_friend_requests(&graph, &auth, id(9)), Ok(vec![]));
    let pending = pending_users(id(1), &graph, &auth);
    assert_eq!(pending, vec![SimpleUser { id: id(2), username: text("bob") }]);
    assert_eq!(pending_users(id(2), &graph, &auth), vec![SimpleUser { id: id(1), username: text("alice") }]);
    assert_eq!(pending_users(id(3), &graph, &auth), vec![SimpleUser { id: id(1), username: text("alice") }]);
    assert_eq!(pending_users(id(9), &graph, &auth), vec![]);
}

#[test]
fn a_request_without_a_presentable_time_fails_the_listing() {
    let auth = users(&[("alice", 1), ("bob", 2)]);
    let mut graph = RelationshipGraph::new();
    add_friend_request(&mut graph, id(2), FriendRequestPayload { friend_id: id(1) }, i64::MAX)
        .unwrap();
    assert_eq!(get_friend_requests(&graph, &auth, id(1)), Err(ApiError::Internal(Fault::Other)));
}

#[test]
fn requests_are_accepted_or_withdrawn_by_the_other_users_identity() {
    let mut graph = RelationshipGraph::new();
    assert_eq!(accept_friend_request(&mut graph, id(1), id(2)), Err(ApiError::NotFound(Missing::FriendRequest)));
    assert!(!delete_friend_request(&mut graph, id(1), id(2)));
    add_friend_request(&mut graph, id(2), FriendRequestPayload { friend_id: id(1) }, 5).unwrap();
    assert!(delete_friend_request(&mut graph, id(1), id(2)));
    assert_eq!(graph.len(), 0);
    add_friend_request(&mut graph, id(2), FriendRequestPayload { friend_id: id(1) }, 6).unwrap();
    assert_eq!(accept_friend_request(&mut graph, id(1), id(2)), Ok(()));
    assert_eq!(accept_friend_request(&mut graph, id(1), id(2)), Err(ApiError::NotFound(Missing::FriendRequest)));
    assert!(!delete_friend_request(&mut graph, id(1), id(2)));
    assert_eq!(graph.edge_between(id(1), id(2)).unwrap().status, Status::Friends);
}
