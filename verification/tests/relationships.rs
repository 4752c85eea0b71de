use chat_backend::error::{ApiError, Invalid, Missing};
use chat_backend::ids::Id;
use chat_backend::models::relationships::{RelationshipGraph, Status};
use chat_backend::route_handlers::relationships::{
    accept_friend_request, block_user, list_friends, list_pending_requests, remove_relationship,
    send_friend_request, RelationshipResult,
};

fn id(value: u128) -> Id {
    Id { value }
}

#[test]
fn request_twice_leaves_one_pending_edge() {
    let mut graph = RelationshipGraph::new();
    assert_eq!(
        send_friend_request(id(2), id(1), &mut graph, 10),
        Ok(RelationshipResult::RequestSent)
    );
    assert_eq!(
        send_friend_request(id(2), id(1), &mut graph, 20),
        Ok(RelationshipResult::RequestSent)
    );
    assert_eq!(graph.len(), 1);
    let edge = graph.edge_between(id(1), id(2)).unwrap();
    assert_eq!(edge.status, Status::Pending);
    assert_eq!(edge.created_at, 10);
    assert_eq!(list_pending_requests(id(1), &graph), vec![id(2)]);
    assert_eq!(list_pending_requests(id(2), &graph), vec![id(1)]);
    assert_eq!(list_friends(id(1), &graph), Vec::<Id>::new());
}

#[test]
fn request_from_either_side_is_one_canonical_edge() {
    let mut graph = RelationshipGraph::new();
    assert_eq!(
        send_friend_request(id(7), id(9), &mut graph, 1),
        Ok(RelationshipResult::RequestSent)
    );
    assert_eq!(
        send_friend_request(id(9), id(7), &mut graph, 2),
        Ok(RelationshipResult::RequestSent)
    );
    assert_eq!(graph.len(), 1);
    let edge = graph.edge_between(id(9), id(7)).unwrap();
    assert_eq!(edge.user_id, id(7));
    assert_eq!(edge.related_user_id, id(9));
    assert_eq!(edge.created_at, 1);
    assert_eq!(graph.edge_between(id(7), id(9)), Some(edge));
}

#[test]
fn request_to_oneself_is_rejected() {
    let mut graph = RelationshipGraph::new();
    assert_eq!(
        send_friend_request(id(5), id(5), &mut graph, 1),
        Err(ApiError::Validation(Invalid::SelfRequest))
    );
    assert_eq!(graph.len(), 0);
    assert_eq!(ApiError::Validation(Invalid::SelfRequest).status(), 400);
    assert_eq!(ApiError::Validation(Invalid::SelfRequest).message(), "Can't add yourself");
}

#[test]
fn accept_without_pending_request_fails() {
    let mut graph = RelationshipGraph::new();
    assert_eq!(
        accept_friend_request(id(2), id(1), &mut graph),
        Err(ApiError::Validation(Invalid::NoPendingRequest))
    );
    assert_eq!(graph.len(), 0);
    assert_eq!(
        ApiError::Validation(Invalid::NoPendingRequest).message(),
        "No pending request found"
    );
}

#[test]
fn accept_turns_pending_into_friends_once() {
    let mut graph = RelationshipGraph::new();
    send_friend_request(id(2), id(1), &mut graph, 3).unwrap();
    assert_eq!(
        accept_friend_request(id(1), id(2), &mut graph),
        Ok(RelationshipResult::Friends)
    );
    let edge = graph.edge_between(id(1), id(2)).unwrap();
    assert_eq!(edge.status, Status::Friends);
    assert_eq!(edge.created_at, 3);
    assert_eq!(
        accept_friend_request(id(1), id(2), &mut graph),
        Err(ApiError::Validation(Invalid::NoPendingRequest))
    );
    assert_eq!(graph.edge_between(id(1), id(2)).unwrap().status, Status::Friends);
}

#[test]
fn friends_list_the_other_on_both_sides() {
    let mut graph = RelationshipGraph::new();
    send_friend_request(id(20), id(10), &mut graph, 1).unwrap();
    accept_friend_request(id(10), id(20), &mut graph).unwrap();
    assert_eq!(list_friends(id(10), &graph), vec![id(20)]);
    assert_eq!(list_friends(id(20), &graph), vec![id(10)]);
    assert_eq!(list_pending_requests(id(10), &graph), Vec::<Id>::new());
    assert_eq!(list_friends(id(30), &graph), Vec::<Id>::new());
}

#[test]
fn block_after_friends_leaves_the_edge_blocked() {
    let mut graph = RelationshipGraph::new();
    send_friend_request(id(2), id(1), &mut graph, 1).unwrap();
    accept_friend_request(id(1), id(2), &mut graph).unwrap();
    assert_eq!(block_user(id(1), id(2), &mut graph, 50), Ok(RelationshipResult::Blocked));
    let edge = graph.edge_between(id(1), id(2)).unwrap();
    assert_eq!(edge.status, Status::Blocked);
    assert_eq!(edge.created_at, 1);
    assert_eq!(graph.len(), 1);
    assert_eq!(list_friends(id(1), &graph), Vec::<Id>::new());
}

#[test]
fn block_creates_the_edge_where_there_was_none() {
    let mut graph = RelationshipGraph::new();
    assert_eq!(block_user(id(4), id(3), &mut graph, 8), Ok(RelationshipResult::Blocked));
    let edge = graph.edge_between(id(3), id(4)).unwrap();
    assert_eq!(edge.status, Status::Blocked);
    assert_eq!(edge.created_at, 8);
    assert_eq!(edge.user_id, id(3));
}

#[test]
fn block_is_terminal_for_requests_and_acceptance() {
    let mut graph = RelationshipGraph::new();
    block_user(id(4), id(3), &mut graph, 8).unwrap();
    assert_eq!(
        send_friend_request(id(4), id(3), &mut graph, 9),
        Ok(RelationshipResult::RequestSent)
    );
    assert_eq!(graph.edge_between(id(3), id(4)).unwrap().status, Status::Blocked);
    assert_eq!(
        accept_friend_request(id(4), id(3), &mut graph),
        Err(ApiError::Validation(Invalid::NoPendingRequest))
    );
    assert_eq!(graph.edge_between(id(3), id(4)).unwrap().status, Status::Blocked);
}

#[test]
fn block_oneself_is_rejected() {
    let mut graph = RelationshipGraph::new();
    assert_eq!(
        block_user(id(3), id(3), &mut graph, 8),
        Err(ApiError::Validation(Invalid::SelfBlock))
    );
    assert_eq!(graph.len(), 0);
}

#[test]
fn remove_deletes_the_edge_whatever_its_state() {
    let mut graph = RelationshipGraph::new();
    block_user(id(2), id(1), &mut graph, 1).unwrap();
    assert_eq!(remove_relationship(id(1), id(2), &mut graph), Ok(RelationshipResult::Removed));
    assert_eq!(graph.len(), 0);
    assert_eq!(graph.edge_between(id(1), id(2)), None);
    send_friend_request(id(2), id(1), &mut graph, 2).unwrap();
    assert_eq!(graph.edge_between(id(1), id(2)).unwrap().status, Status::Pending);
}

#[test]
fn remove_without_edge_is_not_found() {
    let mut graph = RelationshipGraph::new();
    send_friend_request(id(2), id(1), &mut graph, 2).unwrap();
    assert_eq!(remove_relationship(id(3), id(1), &mut graph), Err(ApiError::NotFound(Missing::Relationship)));
    assert_eq!(graph.len(), 1);
    assert_eq!(ApiError::NotFound(Missing::Relationship).status(), 404);
    assert_eq!(ApiError::NotFound(Missing::Relationship).message(), "No relationship to remove");
}

#[test]
fn remove_oneself_is_rejected() {
    let mut graph = RelationshipGraph::new();
    assert_eq!(
        remove_relationship(id(1), id(1), &mut graph),
        Err(ApiError::Validation(Invalid::SelfRemoval))
    );
}

#[test]
fn listings_keep_pairs_apart() {
    let mut graph = RelationshipGraph::new();
    send_friend_request(id(2), id(1), &mut graph, 1).unwrap();
    send_friend_request(id(3), id(1), &mut graph, 2).unwrap();
    send_friend_request(id(3), id(2), &mut graph, 3).unwrap();
    accept_friend_request(id(1), id(3), &mut graph).unwrap();
    assert_eq!(graph.len(), 3);
    assert_eq!(list_friends(id(1), &graph), vec![id(3)]);
    assert_eq!(list_pending_requests(id(1), &graph), vec![id(2)]);
    assert_eq!(list_pending_requests(id(2), &graph), vec![id(1), id(3)]);
    assert_eq!(list_friends(id(3), &graph), vec![id(1)]);
    assert_eq!(list_pending_requests(id(3), &graph), vec![id(2)]);
}
