//! Friends as they are shown to a client, and befriending by an identity
//! given as text.

use crate::auth::middleware::CurrentUser;
use crate::auth::sessions::{has_user_id, user_with_id, SessionAuthenticator, AuthView};
use crate::error::{ApiError, Invalid};
use crate::ids::{parsed_uuid, uuid_text, Id};
use crate::models::relationships::{linked, GraphView, RelationshipGraph, Status};
use crate::models::rooms::text_view;
use crate::route_handlers::relationships::{
    after_request, send_friend_request, RelationshipResult,
};
use vstd::prelude::*;

verus! {
/// The body of a request to befriend a user.
#[derive(Debug, PartialEq, Eq)]
pub struct AddFriendRequest {
    pub friend_id: String,
}

/// A friend as shown to a client.
#[derive(Debug, PartialEq, Eq)]
pub struct FriendResponse {
    pub id: Option<String>,
    pub username: Option<String>,
}

/// What a `FriendResponse` holds, as plain values.
pub struct FriendResponseView {
    pub id: Option<Seq<char>>,
    pub username: Option<Seq<char>>,
}

impl View for FriendResponse {
    type V = FriendResponseView;

    open spec fn view(&self) -> FriendResponseView {
        FriendResponseView { id: text_view(self.id), username: text_view(self.username) }
    }
}

/// `other` is a registered user who is a friend of `user`.
pub open spec fn registered_friend(g: GraphView, v: AuthView, user: Id, other: Id) -> bool {
    linked(g, user, other, Status::Friends) && has_user_id(v.users, other)
}

/// A registered user as a friend is shown.
pub open spec fn friend_shown(v: AuthView, other: Id) -> FriendResponseView {
    FriendResponseView {
        id: Some(uuid_text(other.value)),
        username: Some(user_with_id(v.users, other).username),
    }
}

/// The text under which a row is listed stands for one of the first `upto`
/// identities.
pub open spec fn listed_among(text: Option<Seq<char>>, ids: Seq<Id>, upto: int) -> bool {
    text is Some && exists|j: int|
        0 <= j < upto && j < ids.len() && parsed_uuid(text->0) == Some((#[trigger] ids[j]).value)
}

/// The row shows some registered friend of `user`.
pub open spec fn is_friend_row(row: FriendResponseView, g: GraphView, v: AuthView, user: Id) -> bool {
    exists|other: Id| #[trigger] registered_friend(g, v, user, other) && row == friend_shown(v, other)
}

/// The friends of `user_id` that are registered users, each shown once,
/// with identity and name.
pub fn friends_of(graph: &RelationshipGraph, auth: &SessionAuthenticator, user_id: Id) -> (r: Vec<
    FriendResponse,
>)
    requires
        graph.wf(),
        auth.wf(),
    ensures
        forall|i: int| 0 <= i < r@.len() ==> is_friend_row((#[trigger] r@[i])@, graph@, auth@, user_id),
        forall|i: int, j: int|
            0 <= i < j < r@.len() ==> (#[trigger] r@[i])@.id != (#[trigger] r@[j])@.id,
        forall|other: Id|
            #[trigger] registered_friend(graph@, auth@, user_id, other) ==> exists|i: int|
                0 <= i < r@.len() && (#[trigger] r@[i])@ == friend_shown(auth@, other),
{
    let ids = graph.counterparts(user_id, Status::Friends);
    let mut out: Vec<FriendResponse> = Vec::new();
    let mut i: usize = 0;
    while i < ids.len()
        invariant
            auth.wf(),
            i <= ids@.len(),
            forall|other: Id| ids@.contains(other) <==> linked(graph@, user_id, other, Status::Friends),
            forall|k: int|
                0 <= k < out@.len() ==> is_friend_row((#[trigger] out@[k])@, graph@, auth@, user_id),
            forall|j: int|
                0 <= j < i && has_user_id(auth@.users, #[trigger] ids@[j]) ==> exists|k: int|
                    0 <= k < out@.len() && (#[trigger] out@[k])@ == friend_shown(auth@, ids@[j]),
            ids@.no_duplicates(),
            forall|k: int|
                0 <= k < out@.len() ==> listed_among((#[trigger] out@[k])@.id, ids@, i as int),
            forall|a: int, b: int|
                0 <= a < b < out@.len() ==> (#[trigger] out@[a])@.id != (#[trigger] out@[b])@.id,
        decreases ids@.len() - i,
    {
        let ghost prev = out@;
        match auth.user_by_id(ids[i]) {
            Some(user) => {
                out.push(
                    FriendResponse { id: Some(user.id.text()), username: Some(user.username.clone()) },
                );
                proof {
                    assert(ids@.contains(ids@[i as int]));
                    assert(registered_friend(graph@, auth@, user_id, ids@[i as int]));
                    assert(out@[out@.len() - 1]@ == friend_shown(auth@, ids@[i as int]));
                }
            },
            None => {},
        }
        proof {
            assert forall|j: int|
                0 <= j < i + 1 && has_user_id(auth@.users, #[trigger] ids@[j]) implies exists|
                k: int,
            |
                0 <= k < out@.len() && (#[trigger] out@[k])@ == friend_shown(auth@, ids@[j]) by {
                if j < i {
                    let k = choose|k: int|
                        0 <= k < prev.len() && (#[trigger] prev[k])@ == friend_shown(
                            auth@,
                            ids@[j],
                        );
                    assert(out@[k] == prev[k]);
                }
            }
        }
        i += 1;
    }
    proof {
        assert forall|other: Id| #[trigger]
            registered_friend(graph@, auth@, user_id, other) implies exists|i: int|
            0 <= i < out@.len() && (#[trigger] out@[i])@ == friend_shown(auth@, other) by {
            assert(ids@.contains(other));
        }
    }
    out
}

/// The caller's friends that are registered users, each shown once, with
/// identity and name.
pub fn list_friends(graph: &RelationshipGraph, auth: &SessionAuthenticator, user: &CurrentUser) -> (r:
    Vec<FriendResponse>)
    requires
        graph.wf(),
        auth.wf(),
    ensures
        forall|i: int| 0 <= i < r@.len() ==> is_friend_row((#[trigger] r@[i])@, graph@, auth@, user.id),
        forall|i: int, j: int|
            0 <= i < j < r@.len() ==> (#[trigger] r@[i])@.id != (#[trigger] r@[j])@.id,
        forall|other: Id|
            #[trigger] registered_friend(graph@, auth@, user.id, other) ==> exists|i: int|
                0 <= i < r@.len() && (#[trigger] r@[i])@ == friend_shown(auth@, other),
{
    friends_of(graph, auth, user.id)
}

/// The caller asks the user named in the request for friendship at time
/// `now`.
///
/// An identity that is malformed is rejected, as is the caller's own.
/// Otherwise the request is recorded as by `send_friend_request`:
/// friendship begins as a pending request and is never entered directly.
pub fn add_friend(
    graph: &mut RelationshipGraph,
    user: &CurrentUser,
    payload: AddFriendRequest,
    now: i64,
) -> (r: Result<RelationshipResult, ApiError>)
    requires
        old(graph).wf(),
    ensures
        final(graph).wf(),
        match parsed_uuid(payload.friend_id@) {
            None => r == Err::<RelationshipResult, ApiError>(
                ApiError::Validation(Invalid::MalformedId),
            ) && final(graph)@ == old(graph)@,
            Some(friend) => if user.id.value == friend {
                r == Err::<RelationshipResult, ApiError>(
                    ApiError::Validation(Invalid::SelfRequest),
                ) && final(graph)@ == old(graph)@
            } else {
                r == Ok::<RelationshipResult, ApiError>(RelationshipResult::RequestSent)
                    && final(graph)@ == after_request(
                    old(graph)@,
                    user.id,
                    Id { value: friend },
                    now,
                )
            },
        },
{
    match Id::parse(payload.friend_id.as_str()) {
        Some(friend_id) => send_friend_request(friend_id, user.id, graph, now),
        None => Err(ApiError::Validation(Invalid::MalformedId)),
    }
}
} // verus!
