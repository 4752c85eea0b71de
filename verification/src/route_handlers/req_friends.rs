//! Friend requests as a list of their own: asking, listing, accepting and
//! withdrawing. A request is the pending edge between two users, and is
//! known to each of them by the other's identity.

use crate::auth::sessions::{has_user_id, user_with_id, AuthView, SessionAuthenticator};
use crate::clock::{rfc3339, rfc3339_text};
use crate::error::{ApiError, Fault, Invalid, Missing};
use crate::ids::{canonical, uuid_text, Id};
use crate::models::relationships::{
    linked, status_between, GraphView, RelationshipGraph, Status,
};
use crate::route_handlers::friendships::{
    friend_shown, friends_of, is_friend_row, listed_among, registered_friend, FriendResponse,
};
use crate::route_handlers::relationships::{after_accept, after_remove, after_request};
use vstd::prelude::*;

verus! {
/// The body of a request for friendship.
#[derive(Debug, PartialEq, Eq)]
pub struct FriendRequestPayload {
    pub friend_id: Id,
}

/// A pending request as shown to one of its two users.
#[derive(Debug, PartialEq, Eq)]
pub struct FriendRequestRow {
    /// The identity by which the request is accepted or withdrawn.
    pub id: String,
    pub sender_id: String,
    pub sender_username: String,
    pub created_at: String,
}

/// What a `FriendRequestRow` holds, as plain values.
pub struct FriendRequestRowView {
    pub id: Seq<char>,
    pub sender_id: Seq<char>,
    pub sender_username: Seq<char>,
    pub created_at: Seq<char>,
}

impl View for FriendRequestRow {
    type V = FriendRequestRowView;

    open spec fn view(&self) -> FriendRequestRowView {
        FriendRequestRowView {
            id: self.id@,
            sender_id: self.sender_id@,
            sender_username: self.sender_username@,
            created_at: self.created_at@,
        }
    }
}

/// `other` is a registered user with whom `user` has a request pending.
pub open spec fn registered_request(g: GraphView, v: AuthView, user: Id, other: Id) -> bool {
    linked(g, user, other, Status::Pending) && has_user_id(v.users, other)
}

/// The time at which the request between two users was made has an
/// RFC 3339 form.
pub open spec fn request_presentable(g: GraphView, user: Id, other: Id) -> bool {
    rfc3339_text(g[canonical(user, other)].created_at) is Some
}

/// A pending request as it is shown to `user`.
pub open spec fn request_shown(g: GraphView, v: AuthView, user: Id, other: Id) -> FriendRequestRowView {
    FriendRequestRowView {
        id: uuid_text(other.value),
        sender_id: uuid_text(other.value),
        sender_username: user_with_id(v.users, other).username,
        created_at: rfc3339_text(g[canonical(user, other)].created_at)->0,
    }
}

/// The row shows some request pending between `user` and a registered
/// user.
pub open spec fn is_request_row(row: FriendRequestRowView, g: GraphView, v: AuthView, user: Id) -> bool {
    exists|other: Id|
        #[trigger] registered_request(g, v, user, other) && row == request_shown(g, v, user, other)
}

/// Some row shows the request pending between `user` and `other`.
pub open spec fn shows_request(
    rows: Seq<FriendRequestRow>,
    g: GraphView,
    v: AuthView,
    user: Id,
    other: Id,
) -> bool {
    exists|i: int|
        0 <= i < rows.len() && (#[trigger] rows[i])@ == request_shown(g, v, user, other)
}

/// `user_id` asks the user named in the request for friendship at `now`.
///
/// Asking oneself is rejected, and asking a friend is a conflict; nothing
/// changes then. Otherwise the request succeeds, and records a pending
/// edge only where the pair had no edge.
pub fn add_friend_request(
    graph: &mut RelationshipGraph,
    user_id: Id,
    payload: FriendRequestPayload,
    now: i64,
) -> (r: Result<(), ApiError>)
    requires
        old(graph).wf(),
    ensures
        final(graph).wf(),
        r == if payload.friend_id == user_id {
            Err::<(), ApiError>(ApiError::Validation(Invalid::SelfRequest))
        } else if status_between(old(graph)@, user_id, payload.friend_id) == Some(Status::Friends) {
            Err::<(), ApiError>(ApiError::Conflict)
        } else {
            Ok::<(), ApiError>(())
        },
        final(graph)@ == if r is Ok {
            after_request(old(graph)@, user_id, payload.friend_id, now)
        } else {
            old(graph)@
        },
{
    let friend_id = payload.friend_id;
    if friend_id.value == user_id.value {
        return Err(ApiError::Validation(Invalid::SelfRequest));
    }
    match graph.edge_between(user_id, friend_id) {
        Some(edge) => match edge.status {
            Status::Friends => {
                return Err(ApiError::Conflict);
            },
            _ => {},
        },
        None => {},
    }
    graph.insert_if_absent(user_id, friend_id, Status::Pending, now);
    Ok(())
}

/// The requests pending between `user_id` and registered users, each
/// shown with the other user's identity and name and the time of the
/// request.
///
/// A request whose time has no RFC 3339 form cannot be shown, and the
/// listing fails as a whole.
pub fn get_friend_requests(graph: &RelationshipGraph, auth: &SessionAuthenticator, user_id: Id) -> (r:
    Result<Vec<FriendRequestRow>, ApiError>)
    requires
        graph.wf(),
        auth.wf(),
    ensures
        r matches Ok(rows) ==> forall|i: int|
            0 <= i < rows@.len() ==> is_request_row((#[trigger] rows@[i])@, graph@, auth@, user_id),
        r matches Ok(rows) ==> forall|i: int, j: int|
            0 <= i < j < rows@.len() ==> (#[trigger] rows@[i])@.id != (#[trigger] rows@[j])@.id,
        r matches Ok(rows) ==> forall|other: Id|
            #[trigger] registered_request(graph@, auth@, user_id, other) ==> shows_request(
                rows@,
                graph@,
                auth@,
                user_id,
                other,
            ),
        r matches Err(e) ==> e == ApiError::Internal(Fault::Other) && exists|other: Id|
            #[trigger] registered_request(graph@, auth@, user_id, other) && !request_presentable(
                graph@,
                user_id,
                other,
            ),
{
    let ids = graph.counterparts(user_id, Status::Pending);
    let mut out: Vec<FriendRequestRow> = Vec::new();
    let mut i: usize = 0;
    while i < ids.len()
        invariant
            graph.wf(),
            auth.wf(),
            i <= ids@.len(),
            forall|other: Id| ids@.contains(other) <==> linked(graph@, user_id, other, Status::Pending),
            forall|k: int|
                0 <= k < out@.len() ==> is_request_row((#[trigger] out@[k])@, graph@, auth@, user_id),
            ids@.no_duplicates(),
            forall|k: int|
                0 <= k < out@.len() ==> listed_among(Some((#[trigger] out@[k])@.id), ids@, i as int),
            forall|a: int, b: int|
                0 <= a < b < out@.len() ==> (#[trigger] out@[a])@.id != (#[trigger] out@[b])@.id,
            forall|j: int|
                0 <= j < i && has_user_id(auth@.users, #[trigger] ids@[j]) ==> exists|k: int|
                    0 <= k < out@.len() && (#[trigger] out@[k])@ == request_shown(
                        graph@,
                        auth@,
                        user_id,
                        ids@[j],
                    ),
        decreases ids@.len() - i,
    {
        let ghost prev = out@;
        let other = ids[i];
        proof {
            assert(ids@.contains(ids@[i as int]));
        }
        match auth.user_by_id(other) {
            Some(user) => {
                let edge = graph.edge_between(user_id, other);
                let created_at = match edge {
                    Some(e) => match rfc3339(e.created_at) {
                        Some(text) => text,
                        None => {
                            proof {
                                assert(registered_request(graph@, auth@, user_id, other));
                            }
                            return Err(ApiError::Internal(Fault::Other));
                        },
                    },
                    None => {
                        return Err(ApiError::Internal(Fault::Other));
                    },
                };
                out.push(
                    FriendRequestRow {
                        id: other.text(),
                        sender_id: other.text(),
                        sender_username: user.username.clone(),
                        created_at,
                    },
                );
                proof {
                    assert(registered_request(graph@, auth@, user_id, other));
                    assert(out@[out@.len() - 1]@ == request_shown(graph@, auth@, user_id, other));
                }
            },
            None => {},
        }
        proof {
            assert forall|j: int|
                0 <= j < i + 1 && has_user_id(auth@.users, #[trigger] ids@[j]) implies exists|
                k: int,
            |
                0 <= k < out@.len() && (#[trigger] out@[k])@ == request_shown(
                    graph@,
                    auth@,
                    user_id,
                    ids@[j],
                ) by {
                if j < i {
                    let k = choose|k: int|
                        0 <= k < prev.len() && (#[trigger] prev[k])@ == request_shown(
                            graph@,
                            auth@,
                            user_id,
                            ids@[j],
                        );
                    assert(out@[k] == prev[k]);
                }
            }
        }
        i += 1;
    }
    proof {
        assert forall|other: Id| #[trigger]
            registered_request(graph@, auth@, user_id, other) implies shows_request(
            out@,
            graph@,
            auth@,
            user_id,
            other,
        ) by {
            assert(ids@.contains(other));
        }
    }
    Ok(out)
}

/// `user_id` accepts the request pending with the user `request_id`.
///
/// Succeeds exactly when the two have a request pending, which becomes a
/// friendship. Otherwise the request is not found and nothing changes.
pub fn accept_friend_request(graph: &mut RelationshipGraph, user_id: Id, request_id: Id) -> (r:
    Result<(), ApiError>)
    requires
        old(graph).wf(),
    ensures
        final(graph).wf(),
        status_between(old(graph)@, user_id, request_id) == Some(Status::Pending) ==> r == Ok::<
            (),
            ApiError,
        >(()) && final(graph)@ == after_accept(old(graph)@, user_id, request_id),
        status_between(old(graph)@, user_id, request_id) != Some(Status::Pending) ==> r == Err::<
            (),
            ApiError,
        >(ApiError::NotFound(Missing::FriendRequest)) && final(graph)@ == old(graph)@,
{
    match graph.edge_between(user_id, request_id) {
        Some(edge) => match edge.status {
            Status::Pending => {
                graph.set_status(user_id, request_id, Status::Friends);
                Ok(())
            },
            _ => Err(ApiError::NotFound(Missing::FriendRequest)),
        },
        None => Err(ApiError::NotFound(Missing::FriendRequest)),
    }
}

/// `user_id` withdraws or declines the request pending with the user
/// `request_id`. A pending request is removed; anything else, a friendship
/// or a block included, is left as it is. Returns whether a request was
/// removed.
pub fn delete_friend_request(graph: &mut RelationshipGraph, user_id: Id, request_id: Id) -> (removed:
    bool)
    requires
        old(graph).wf(),
    ensures
        final(graph).wf(),
        removed == (status_between(old(graph)@, user_id, request_id) == Some(Status::Pending)),
        final(graph)@ == if removed {
            after_remove(old(graph)@, user_id, request_id)
        } else {
            old(graph)@
        },
{
    match graph.edge_between(user_id, request_id) {
        Some(edge) => match edge.status {
            Status::Pending => {
                graph.delete(user_id, request_id);
                true
            },
            _ => false,
        },
        None => false,
    }
}

/// The friends of `user_id` that are registered users, each shown with
/// identity and name.
pub fn list_friends(graph: &RelationshipGraph, auth: &SessionAuthenticator, user_id: Id) -> (r: Vec<
    FriendResponse,
>)
    requires
        graph.wf(),
        auth.wf(),
    ensures
        forall|i: int| 0 <= i < r@.len() ==> is_friend_row((#[trigger] r@[i])@, graph@, auth@, user_id),
        forall|i: int, j: int|
            0 <= i < j < r@.len() ==> (#[trigger] r@[i])@.id != (#[trigger] r@[j])@.id,
        forall|other: Id|
            #[trigger] registered_friend(graph@, auth@, user_id, other) ==> exists|i: int|
                0 <= i < r@.len() && (#[trigger] r@[i])@ == friend_shown(auth@, other),
{
    friends_of(graph, auth, user_id)
}
} // verus!
