//! The relationship state machine: request, accept, block, remove, and the
//! two listings.

use crate::error::{ApiError, Invalid, Missing};
use crate::ids::{canonical, lemma_canonical_symmetric, Id};
use crate::models::relationships::{
    canonical_edges, linked, status_between, GraphView, Relationship, RelationshipGraph, Status,
};
use crate::auth::sessions::{has_user_id, user_with_id, SessionAuthenticator};
use crate::models::user::SimpleUser;
use vstd::prelude::*;

verus! {
/// What a successful operation on an edge reports.
#[derive(Clone, Copy, Debug, PartialEq, Eq, Structural)]
pub enum RelationshipResult {
    RequestSent,
    Friends,
    Blocked,
    Removed,
}

/// The edge that is recorded when the pair `a`, `b` has none.
pub open spec fn new_edge(a: Id, b: Id, status: Status, now: i64) -> Relationship {
    Relationship {
        user_id: canonical(a, b).0,
        related_user_id: canonical(a, b).1,
        status,
        created_at: now,
    }
}

/// The graph after `a` asks `b` for friendship: a pending edge is added
/// unless the pair already has an edge, which is then left untouched.
pub open spec fn after_request(g: GraphView, a: Id, b: Id, now: i64) -> GraphView {
    if g.contains_key(canonical(a, b)) {
        g
    } else {
        g.insert(canonical(a, b), new_edge(a, b, Status::Pending, now))
    }
}

/// The graph after the pending edge between `a` and `b` is accepted.
pub open spec fn after_accept(g: GraphView, a: Id, b: Id) -> GraphView {
    g.insert(canonical(a, b), (Relationship { status: Status::Friends, ..g[canonical(a, b)] }))
}

/// The graph after one of `a`, `b` blocks the other: the edge is blocked,
/// whatever it was before, and is created if there was none.
pub open spec fn after_block(g: GraphView, a: Id, b: Id, now: i64) -> GraphView {
    if g.contains_key(canonical(a, b)) {
        g.insert(canonical(a, b), (Relationship { status: Status::Blocked, ..g[canonical(a, b)] }))
    } else {
        g.insert(canonical(a, b), new_edge(a, b, Status::Blocked, now))
    }
}

/// The graph after the edge between `a` and `b` is removed.
pub open spec fn after_remove(g: GraphView, a: Id, b: Id) -> GraphView {
    g.remove(canonical(a, b))
}

/// `my_id` asks `target_id` for friendship at time `now`.
///
/// Asking oneself is rejected. Otherwise the request succeeds, and records a
/// pending edge only where the pair had no edge: an existing edge, possibly
/// in a more advanced state, is never overwritten.
pub fn send_friend_request(
    target_id: Id,
    my_id: Id,
    graph: &mut RelationshipGraph,
    now: i64,
) -> (r: Result<RelationshipResult, ApiError>)
    requires
        old(graph).wf(),
    ensures
        final(graph).wf(),
        my_id == target_id ==> r == Err::<RelationshipResult, ApiError>(
            ApiError::Validation(Invalid::SelfRequest),
        ) && final(graph)@ == old(graph)@,
        my_id != target_id ==> r == Ok::<RelationshipResult, ApiError>(
            RelationshipResult::RequestSent,
        ) && final(graph)@ == after_request(old(graph)@, my_id, target_id, now),
{
    if my_id.value == target_id.value {
        return Err(ApiError::Validation(Invalid::SelfRequest));
    }
    graph.insert_if_absent(my_id, target_id, Status::Pending, now);
    Ok(RelationshipResult::RequestSent)
}

/// `my_id` accepts the pending request between itself and `other_id`.
///
/// Succeeds exactly when the pair has a pending edge, which becomes a
/// friendship. In every other case (no edge, already friends, blocked)
/// nothing changes and the error says that no request is pending.
pub fn accept_friend_request(other_id: Id, my_id: Id, graph: &mut RelationshipGraph) -> (r: Result<
    RelationshipResult,
    ApiError,
>)
    requires
        old(graph).wf(),
    ensures
        final(graph).wf(),
        status_between(old(graph)@, my_id, other_id) == Some(Status::Pending) ==> r == Ok::<
            RelationshipResult,
            ApiError,
        >(RelationshipResult::Friends) && final(graph)@ == after_accept(
            old(graph)@,
            my_id,
            other_id,
        ),
        status_between(old(graph)@, my_id, other_id) != Some(Status::Pending) ==> r == Err::<
            RelationshipResult,
            ApiError,
        >(ApiError::Validation(Invalid::NoPendingRequest)) && final(graph)@ == old(graph)@,
{
    match graph.edge_between(my_id, other_id) {
        Some(edge) => match edge.status {
            Status::Pending => {
                graph.set_status(my_id, other_id, Status::Friends);
                Ok(RelationshipResult::Friends)
            },
            _ => Err(ApiError::Validation(Invalid::NoPendingRequest)),
        },
        None => Err(ApiError::Validation(Invalid::NoPendingRequest)),
    }
}

/// `my_id` blocks `other_id` at time `now`.
///
/// Blocking oneself is rejected, since no user holds an edge with themself.
/// Otherwise the edge between the two becomes blocked unconditionally: an
/// existing edge changes state, and a missing one is created.
pub fn block_user(other_id: Id, my_id: Id, graph: &mut RelationshipGraph, now: i64) -> (r: Result<
    RelationshipResult,
    ApiError,
>)
    requires
        old(graph).wf(),
    ensures
        final(graph).wf(),
        my_id == other_id ==> r == Err::<RelationshipResult, ApiError>(
            ApiError::Validation(Invalid::SelfBlock),
        ) && final(graph)@ == old(graph)@,
        my_id != other_id ==> r == Ok::<RelationshipResult, ApiError>(RelationshipResult::Blocked)
            && final(graph)@ == after_block(old(graph)@, my_id, other_id, now),
{
    if my_id.value == other_id.value {
        return Err(ApiError::Validation(Invalid::SelfBlock));
    }
    if !graph.insert_if_absent(my_id, other_id, Status::Blocked, now) {
        graph.set_status(my_id, other_id, Status::Blocked);
    }
    Ok(RelationshipResult::Blocked)
}

/// `my_id` removes the edge between itself and `other_id`, whatever its state.
///
/// Naming oneself is rejected; a pair without an edge is reported as not
/// found; in both cases nothing changes.
pub fn remove_relationship(other_id: Id, my_id: Id, graph: &mut RelationshipGraph) -> (r: Result<
    RelationshipResult,
    ApiError,
>)
    requires
        old(graph).wf(),
    ensures
        final(graph).wf(),
        my_id == other_id ==> r == Err::<RelationshipResult, ApiError>(
            ApiError::Validation(Invalid::SelfRemoval),
        ) && final(graph)@ == old(graph)@,
        my_id != other_id && old(graph)@.contains_key(canonical(my_id, other_id)) ==> r == Ok::<
            RelationshipResult,
            ApiError,
        >(RelationshipResult::Removed) && final(graph)@ == after_remove(
            old(graph)@,
            my_id,
            other_id,
        ),
        my_id != other_id && !old(graph)@.contains_key(canonical(my_id, other_id)) ==> r == Err::<
            RelationshipResult,
            ApiError,
        >(ApiError::NotFound(Missing::Relationship)) && final(graph)@ == old(graph)@,
{
    if my_id.value == other_id.value {
        return Err(ApiError::Validation(Invalid::SelfRemoval));
    }
    if graph.delete(my_id, other_id) {
        Ok(RelationshipResult::Removed)
    } else {
        Err(ApiError::NotFound(Missing::Relationship))
    }
}

/// The friends of `my_id`: the counterpart of every friendship edge that
/// holds `my_id`, each exactly once.
pub fn list_friends(my_id: Id, graph: &RelationshipGraph) -> (r: Vec<Id>)
    requires
        graph.wf(),
    ensures
        r@.no_duplicates(),
        forall|other: Id| r@.contains(other) <==> linked(graph@, my_id, other, Status::Friends),
{
    graph.counterparts(my_id, Status::Friends)
}

/// The users with whom `my_id` has a request pending: the counterpart of
/// every pending edge that holds `my_id`, each exactly once.
pub fn list_pending_requests(my_id: Id, graph: &RelationshipGraph) -> (r: Vec<Id>)
    requires
        graph.wf(),
    ensures
        r@.no_duplicates(),
        forall|other: Id| r@.contains(other) <==> linked(graph@, my_id, other, Status::Pending),
{
    graph.counterparts(my_id, Status::Pending)
}

/// The registered users with whom `my_id` has a request pending, each
/// once, with identity and name.
pub fn pending_users(my_id: Id, graph: &RelationshipGraph, auth: &SessionAuthenticator) -> (r: Vec<
    SimpleUser,
>)
    requires
        graph.wf(),
        auth.wf(),
    ensures
        forall|i: int|
            0 <= i < r@.len() ==> linked(graph@, my_id, (#[trigger] r@[i]).id, Status::Pending)
                && has_user_id(auth@.users, r@[i].id) && r@[i].username@ == user_with_id(
                auth@.users,
                r@[i].id,
            ).username,
        forall|other: Id|
            linked(graph@, my_id, other, Status::Pending) && has_user_id(auth@.users, other)
                ==> exists|i: int| 0 <= i < r@.len() && (#[trigger] r@[i]).id == other,
        forall|i: int, j: int| 0 <= i < j < r@.len() ==> (#[trigger] r@[i]).id != (#[trigger] r@[j]).id,
{
    let ids = graph.counterparts(my_id, Status::Pending);
    let mut out: Vec<SimpleUser> = Vec::new();
    let mut i: usize = 0;
    while i < ids.len()
        invariant
            auth.wf(),
            i <= ids@.len(),
            ids@.no_duplicates(),
            forall|other: Id| ids@.contains(other) <==> linked(graph@, my_id, other, Status::Pending),
            forall|k: int|
                0 <= k < out@.len() ==> exists|j: int|
                    0 <= j < i && ids@[j] == (#[trigger] out@[k]).id,
            forall|k: int|
                0 <= k < out@.len() ==> has_user_id(auth@.users, (#[trigger] out@[k]).id)
                    && out@[k].username@ == user_with_id(auth@.users, out@[k].id).username,
            forall|j: int|
                0 <= j < i && has_user_id(auth@.users, #[trigger] ids@[j]) ==> exists|k: int|
                    0 <= k < out@.len() && (#[trigger] out@[k]).id == ids@[j],
            forall|a: int, b: int|
                0 <= a < b < out@.len() ==> (#[trigger] out@[a]).id != (#[trigger] out@[b]).id,
        decreases ids@.len() - i,
    {
        let ghost prev = out@;
        match auth.user_by_id(ids[i]) {
            Some(user) => {
                out.push(user.simple());
            },
            None => {},
        }
        proof {
            assert forall|k: int| 0 <= k < out@.len() implies exists|j: int|
                0 <= j < i + 1 && ids@[j] == (#[trigger] out@[k]).id by {
                if k < prev.len() {
                    assert(out@[k] == prev[k]);
                    let j = choose|j: int| 0 <= j < i && ids@[j] == prev[k].id;
                    assert(ids@[j] == out@[k].id);
                } else {
                    assert(ids@[i as int] == out@[k].id);
                }
            }
            assert forall|k: int| 0 <= k < out@.len() implies has_user_id(
                auth@.users,
                (#[trigger] out@[k]).id,
            ) && out@[k].username@ == user_with_id(auth@.users, out@[k].id).username by {
                if k < prev.len() {
                    assert(out@[k] == prev[k]);
                }
            }
            assert forall|j: int|
                0 <= j < i + 1 && has_user_id(auth@.users, #[trigger] ids@[j]) implies exists|
                k: int,
            | 0 <= k < out@.len() && (#[trigger] out@[k]).id == ids@[j] by {
                if j < i {
                    let k = choose|k: int| 0 <= k < prev.len() && (#[trigger] prev[k]).id == ids@[j];
                    assert(out@[k] == prev[k]);
                } else {
                    assert(out@[out@.len() - 1].id == ids@[j]);
                }
            }
            assert forall|a: int, b: int| 0 <= a < b < out@.len() implies (#[trigger] out@[a]).id
                != (#[trigger] out@[b]).id by {
                assert(out@[a] == prev[a]);
                if b < prev.len() {
                    assert(out@[b] == prev[b]);
                } else {
                    let j = choose|j: int| 0 <= j < i && ids@[j] == prev[a].id;
                    assert(ids@[j] != ids@[i as int]);
                }
            }
        }
        i += 1;
    }
    proof {
        assert forall|k: int| 0 <= k < out@.len() implies linked(
            graph@,
            my_id,
            (#[trigger] out@[k]).id,
            Status::Pending,
        ) by {
            let j = choose|j: int| 0 <= j < i && ids@[j] == out@[k].id;
            assert(ids@.contains(ids@[j]));
        }
        assert forall|other: Id|
            linked(graph@, my_id, other, Status::Pending) && has_user_id(
                auth@.users,
                other,
            ) implies exists|k: int| 0 <= k < out@.len() && (#[trigger] out@[k]).id == other by {
            assert(ids@.contains(other));
            let j = choose|j: int| 0 <= j < ids@.len() && ids@[j] == other;
            assert(has_user_id(auth@.users, ids@[j]));
        }
    }
    out
}

/// Requesting is idempotent: a second request between the same two users,
/// from either side and at any time, changes nothing. Where the pair had no
/// edge, the request adds exactly one, and it is pending.
pub proof fn law_request_idempotent(g: GraphView, a: Id, b: Id, first: i64, second: i64)
    requires
        a != b,
    ensures
        after_request(after_request(g, a, b, first), a, b, second) == after_request(
            g,
            a,
            b,
            first,
        ),
        after_request(after_request(g, a, b, first), b, a, second) == after_request(
            g,
            a,
            b,
            first,
        ),
        !g.contains_key(canonical(a, b)) ==> {
            &&& after_request(g, a, b, first).dom() == g.dom().insert(canonical(a, b))
            &&& status_between(after_request(g, a, b, first), a, b) == Some(Status::Pending)
            &&& forall|k: (Id, Id)|
                k != canonical(a, b) && g.contains_key(k) ==> after_request(g, a, b, first)[k]
                    == g[k]
        },
{
    lemma_canonical_symmetric(a, b);
}

/// A request from `a` to `b` and a request from `b` to `a` record the same
/// single edge, under the same canonical pair.
pub proof fn law_request_canonical(g: GraphView, a: Id, b: Id, now: i64)
    requires
        a != b,
    ensures
        after_request(g, a, b, now) == after_request(g, b, a, now),
        after_request(g, a, b, now).contains_key(canonical(a, b)),
        canonical(a, b) == canonical(b, a),
        canonical_edges(g) ==> canonical_edges(after_request(g, a, b, now)),
{
    lemma_canonical_symmetric(a, b);
}

/// Blocking wins over every earlier state: after a block the edge is
/// blocked, whether the two were friends, had a request pending, or had no
/// edge at all.
pub proof fn law_block_overrides(g: GraphView, a: Id, b: Id, now: i64)
    requires
        a != b,
    ensures
        status_between(after_block(g, a, b, now), a, b) == Some(Status::Blocked),
        status_between(after_block(g, a, b, now), b, a) == Some(Status::Blocked),
        after_block(g, a, b, now).dom() == g.dom().insert(canonical(a, b)),
{
    lemma_canonical_symmetric(a, b);
}

/// A block is terminal until the edge is removed: across a blocked edge a
/// request from either side changes nothing.
pub proof fn law_block_is_terminal(g: GraphView, a: Id, b: Id, now: i64)
    requires
        status_between(g, a, b) == Some(Status::Blocked),
    ensures
        after_request(g, a, b, now) == g,
        after_request(g, b, a, now) == g,
        status_between(after_remove(g, a, b), a, b) is None,
{
    lemma_canonical_symmetric(a, b);
}

/// After `a` requests and `b` accepts, where the two had no edge before,
/// each is listed among the other's friends.
pub proof fn law_request_then_accept(g: GraphView, a: Id, b: Id, now: i64)
    requires
        a != b,
        !g.contains_key(canonical(a, b)),
    ensures
        status_between(after_request(g, a, b, now), b, a) == Some(Status::Pending),
        linked(after_accept(after_request(g, a, b, now), b, a), a, b, Status::Friends),
        linked(after_accept(after_request(g, a, b, now), b, a), b, a, Status::Friends),
{
    lemma_canonical_symmetric(a, b);
}
} // verus!
