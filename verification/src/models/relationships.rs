//! The relationship graph: at most one edge per unordered pair of users,
//! stored under the canonical (ordered) pair.

use crate::ids::{canonical, canonical_pair, Id};
use vstd::prelude::*;

verus! {
/// The state of an edge between two users.
#[derive(Clone, Copy, Debug, PartialEq, Eq, Structural)]
pub enum Status {
    Pending,
    Friends,
    Blocked,
}

/// One edge of the graph. `user_id` is the smaller identity of the pair.
#[derive(Clone, Copy, Debug, PartialEq, Eq, Structural)]
pub struct Relationship {
    pub user_id: Id,
    pub related_user_id: Id,
    pub status: Status,
    pub created_at: i64,
}

/// The graph as a map from canonical pairs to edges.
pub type GraphView = Map<(Id, Id), Relationship>;

/// The pair under which an edge is stored.
pub open spec fn edge_key(e: Relationship) -> (Id, Id) {
    (e.user_id, e.related_user_id)
}

/// The map that a list of edges stands for.
pub open spec fn edges_map(s: Seq<Relationship>) -> GraphView
    decreases s.len(),
{
    if s.len() == 0 {
        Map::empty()
    } else {
        edges_map(s.drop_last()).insert(edge_key(s.last()), s.last())
    }
}

/// Every edge joins two distinct users and is stored under its own
/// canonical pair.
pub open spec fn canonical_edges(g: GraphView) -> bool {
    forall|k: (Id, Id)| #[trigger]
        g.contains_key(k) ==> k.0.value < k.1.value && edge_key(g[k]) == k
}

/// The state of the edge between `a` and `b`, if there is one.
pub open spec fn status_between(g: GraphView, a: Id, b: Id) -> Option<Status> {
    if g.contains_key(canonical(a, b)) {
        Some(g[canonical(a, b)].status)
    } else {
        None
    }
}

/// `other` is a counterpart of `user` over an edge in state `status`.
pub open spec fn linked(g: GraphView, user: Id, other: Id, status: Status) -> bool {
    other != user && status_between(g, user, other) == Some(status)
}

spec fn distinct_keys(s: Seq<Relationship>) -> bool {
    forall|i: int, j: int|
        0 <= i < s.len() && 0 <= j < s.len() && i != j ==> edge_key(#[trigger] s[i]) != edge_key(
            #[trigger] s[j],
        )
}

spec fn ordered_edges(s: Seq<Relationship>) -> bool {
    forall|i: int| 0 <= i < s.len() ==> (#[trigger] s[i]).user_id.value < s[i].related_user_id.value
}

proof fn lemma_map_domain(s: Seq<Relationship>)
    ensures
        forall|k: (Id, Id)|
            edges_map(s).contains_key(k) <==> exists|i: int|
                0 <= i < s.len() && edge_key(#[trigger] s[i]) == k,
        edges_map(s).dom().finite(),
    decreases s.len(),
{
    if s.len() > 0 {
        let t = s.drop_last();
        lemma_map_domain(t);
        assert forall|k: (Id, Id)|
            edges_map(s).contains_key(k) <==> exists|i: int|
                0 <= i < s.len() && edge_key(#[trigger] s[i]) == k by {
            if exists|i: int| 0 <= i < s.len() && edge_key(#[trigger] s[i]) == k {
                let i = choose|i: int| 0 <= i < s.len() && edge_key(#[trigger] s[i]) == k;
                if i < t.len() {
                    assert(edge_key(t[i]) == k);
                }
            }
        }
    }
}

proof fn lemma_map_value(s: Seq<Relationship>, i: int)
    requires
        distinct_keys(s),
        0 <= i < s.len(),
    ensures
        edges_map(s).contains_key(edge_key(s[i])),
        edges_map(s)[edge_key(s[i])] == s[i],
    decreases s.len(),
{
    let t = s.drop_last();
    if i < s.len() - 1 {
        lemma_map_value(t, i);
    }
}

proof fn lemma_map_push(s: Seq<Relationship>, e: Relationship)
    ensures
        edges_map(s.push(e)) == edges_map(s).insert(edge_key(e), e),
{
    assert(s.push(e).drop_last() =~= s);
}

proof fn lemma_map_update(s: Seq<Relationship>, i: int, e: Relationship)
    requires
        distinct_keys(s),
        0 <= i < s.len(),
        edge_key(e) == edge_key(s[i]),
    ensures
        distinct_keys(s.update(i, e)),
        edges_map(s.update(i, e)) == edges_map(s).insert(edge_key(e), e),
{
    let u = s.update(i, e);
    lemma_map_domain(s);
    lemma_map_domain(u);
    let lhs = edges_map(u);
    let rhs = edges_map(s).insert(edge_key(e), e);
    assert forall|k: (Id, Id)| lhs.contains_key(k) <==> rhs.contains_key(k) by {
        if rhs.contains_key(k) {
            if k == edge_key(e) {
                assert(edge_key(u[i]) == k);
            } else {
                let j = choose|j: int| 0 <= j < s.len() && edge_key(#[trigger] s[j]) == k;
                assert(edge_key(u[j]) == k);
            }
        }
    }
    assert forall|k: (Id, Id)| lhs.contains_key(k) implies lhs[k] == rhs[k] by {
        let j = choose|j: int| 0 <= j < u.len() && edge_key(#[trigger] u[j]) == k;
        lemma_map_value(u, j);
        if j != i {
            lemma_map_value(s, j);
        }
    }
}

proof fn lemma_map_remove(s: Seq<Relationship>, i: int)
    requires
        distinct_keys(s),
        0 <= i < s.len(),
    ensures
        distinct_keys(s.remove(i)),
        edges_map(s.remove(i)) == edges_map(s).remove(edge_key(s[i])),
{
    let u = s.remove(i);
    lemma_map_domain(s);
    lemma_map_domain(u);
    let lhs = edges_map(u);
    let rhs = edges_map(s).remove(edge_key(s[i]));
    assert forall|k: (Id, Id)| lhs.contains_key(k) <==> rhs.contains_key(k) by {
        if rhs.contains_key(k) {
            let j = choose|j: int| 0 <= j < s.len() && edge_key(#[trigger] s[j]) == k;
            let j1 = if j < i { j } else { j - 1 };
            assert(u[j1] == s[j]);
        }
    }
    assert forall|k: (Id, Id)| lhs.contains_key(k) implies lhs[k] == rhs[k] by {
        let j = choose|j: int| 0 <= j < u.len() && edge_key(#[trigger] u[j]) == k;
        let j0 = if j < i { j } else { j + 1 };
        lemma_map_value(u, j);
        lemma_map_value(s, j0);
    }
}

/// The relationship graph.
pub struct RelationshipGraph {
    edges: Vec<Relationship>,
}

impl View for RelationshipGraph {
    type V = GraphView;

    closed spec fn view(&self) -> GraphView {
        edges_map(self.edges@)
    }
}

impl RelationshipGraph {
    /// The stored edges are strictly ordered pairs, one per pair.
    pub closed spec fn wf(&self) -> bool {
        distinct_keys(self.edges@) && ordered_edges(self.edges@)
    }

    /// A well-formed graph has finitely many edges, each under its own
    /// canonical pair of two distinct users: no pair has two edges, and no
    /// user has an edge with themself.
    pub proof fn law_canonical_edges(&self)
        requires
            self.wf(),
        ensures
            canonical_edges(self@),
            self@.dom().finite(),
    {
        let s = self.edges@;
        lemma_map_domain(s);
        assert forall|k: (Id, Id)| #[trigger] self@.contains_key(k) implies k.0.value < k.1.value
            && edge_key(self@[k]) == k by {
            let i = choose|i: int| 0 <= i < s.len() && edge_key(#[trigger] s[i]) == k;
            lemma_map_value(s, i);
        }
    }

    /// The graph without edges.
    pub fn new() -> (g: RelationshipGraph)
        ensures
            g.wf(),
            g@ == Map::<(Id, Id), Relationship>::empty(),
    {
        RelationshipGraph { edges: Vec::new() }
    }

    /// The number of edges.
    pub fn len(&self) -> (n: usize)
        requires
            self.wf(),
        ensures
            n == self@.dom().len(),
    {
        proof {
            lemma_len(self.edges@);
        }
        self.edges.len()
    }

    fn find(&self, key: (Id, Id)) -> (r: Option<usize>)
        requires
            self.wf(),
        ensures
            r is Some <==> self@.contains_key(key),
            r matches Some(i) ==> i < self.edges@.len() && self.edges@[i as int] == self@[key]
                && edge_key(self.edges@[i as int]) == key,
    {
        let mut i: usize = 0;
        proof {
            lemma_map_domain(self.edges@);
        }
        while i < self.edges.len()
            invariant
                self.wf(),
                i <= self.edges@.len(),
                forall|j: int| 0 <= j < i ==> edge_key(#[trigger] self.edges@[j]) != key,
            decreases self.edges@.len() - i,
        {
            let e = self.edges[i];
            if e.user_id.value == key.0.value && e.related_user_id.value == key.1.value {
                proof {
                    lemma_map_value(self.edges@, i as int);
                }
                return Some(i);
            }
            i += 1;
        }
        None
    }

    /// The edge between `a` and `b`, in either order, if there is one.
    pub fn edge_between(&self, a: Id, b: Id) -> (r: Option<Relationship>)
        requires
            self.wf(),
        ensures
            r == if self@.contains_key(canonical(a, b)) {
                Some(self@[canonical(a, b)])
            } else {
                None
            },
    {
        match self.find(canonical_pair(a, b)) {
            Some(i) => Some(self.edges[i]),
            None => None,
        }
    }

    /// Records the edge between `a` and `b` in state `status` if the pair
    /// has none; an existing edge is left as it is. Returns whether an edge
    /// was added.
    pub(crate) fn insert_if_absent(&mut self, a: Id, b: Id, status: Status, now: i64) -> (added:
        bool)
        requires
            old(self).wf(),
            a != b,
        ensures
            final(self).wf(),
            added == !old(self)@.contains_key(canonical(a, b)),
            final(self)@ == if added {
                old(self)@.insert(
                    canonical(a, b),
                    (Relationship {
                        user_id: canonical(a, b).0,
                        related_user_id: canonical(a, b).1,
                        status,
                        created_at: now,
                    }),
                )
            } else {
                old(self)@
            },
    {
        let key = canonical_pair(a, b);
        match self.find(key) {
            Some(_) => false,
            None => {
                let edge = Relationship {
                    user_id: key.0,
                    related_user_id: key.1,
                    status,
                    created_at: now,
                };
                proof {
                    lemma_map_domain(self.edges@);
                    lemma_map_push(self.edges@, edge);
                }
                self.edges.push(edge);
                true
            },
        }
    }

    /// Sets the state of the edge between `a` and `b`, which must exist, and
    /// keeps its creation time.
    pub(crate) fn set_status(&mut self, a: Id, b: Id, status: Status)
        requires
            old(self).wf(),
            old(self)@.contains_key(canonical(a, b)),
        ensures
            final(self).wf(),
            final(self)@ == old(self)@.insert(
                canonical(a, b),
                (Relationship { status, ..old(self)@[canonical(a, b)] }),
            ),
    {
        let key = canonical_pair(a, b);
        match self.find(key) {
            Some(i) => {
                let prior = self.edges[i];
                let edge = Relationship { status, ..prior };
                proof {
                    lemma_map_update(self.edges@, i as int, edge);
                }
                self.edges.set(i, edge);
            },
            None => {},
        }
    }

    /// Deletes the edge between `a` and `b`, whatever its state. Returns
    /// whether there was one.
    pub(crate) fn delete(&mut self, a: Id, b: Id) -> (removed: bool)
        requires
            old(self).wf(),
        ensures
            final(self).wf(),
            removed == old(self)@.contains_key(canonical(a, b)),
            final(self)@ == old(self)@.remove(canonical(a, b)),
    {
        let key = canonical_pair(a, b);
        match self.find(key) {
            Some(i) => {
                proof {
                    lemma_map_remove(self.edges@, i as int);
                }
                self.edges.remove(i);
                true
            },
            None => {
                false
            },
        }
    }

    /// The users linked to `user` by an edge in state `status`: each exactly
    /// once, in the order in which the edges were recorded.
    pub fn counterparts(&self, user: Id, status: Status) -> (r: Vec<Id>)
        requires
            self.wf(),
        ensures
            r@.no_duplicates(),
            forall|other: Id| r@.contains(other) <==> linked(self@, user, other, status),
    {
        let mut out: Vec<Id> = Vec::new();
        let mut i: usize = 0;
        proof {
            lemma_map_domain(self.edges@);
        }
        while i < self.edges.len()
            invariant
                self.wf(),
                i <= self.edges@.len(),
                out@.no_duplicates(),
                forall|other: Id|
                    out@.contains(other) <==> exists|j: int|
                        0 <= j < i && #[trigger] touches(self.edges@[j], user, other, status),
            decreases self.edges@.len() - i,
        {
            let e = self.edges[i];
            let ghost prev = out@;
            if status_eq(e.status, status) {
                if e.user_id.value == user.value {
                    proof {
                        lemma_fresh(self.edges@, i as int, prev, user, e.related_user_id, status);
                    }
                    out.push(e.related_user_id);
                } else if e.related_user_id.value == user.value {
                    proof {
                        lemma_fresh(self.edges@, i as int, prev, user, e.user_id, status);
                    }
                    out.push(e.user_id);
                }
            }
            proof {
                assert forall|other: Id|
                    out@.contains(other) <==> exists|j: int|
                        0 <= j < i + 1 && #[trigger] touches(
                            self.edges@[j],
                            user,
                            other,
                            status,
                        ) by {
                    if out@.contains(other) {
                        if !prev.contains(other) {
                            assert(touches(self.edges@[i as int], user, other, status));
                        }
                    }
                    if exists|j: int|
                        0 <= j < i + 1 && #[trigger] touches(
                            self.edges@[j],
                            user,
                            other,
                            status,
                        ) {
                        let j = choose|j: int|
                            0 <= j < i + 1 && #[trigger] touches(
                                self.edges@[j],
                                user,
                                other,
                                status,
                            );
                        if j < i {
                            assert(prev.contains(other));
                            let w = choose|w: int| 0 <= w < prev.len() && prev[w] == other;
                            assert(out@[w] == other);
                        } else {
                            assert(out@[out@.len() - 1] == other);
                        }
                    }
                }
            }
            i += 1;
        }
        proof {
            assert forall|other: Id| out@.contains(other) <==> linked(
                self@,
                user,
                other,
                status,
            ) by {
                lemma_touches(self.edges@, user, other, status);
            }
        }
        out
    }
}

/// Whether two states are the same.
pub fn status_eq(a: Status, b: Status) -> (r: bool)
    ensures
        r == (a == b),
{
    match (a, b) {
        (Status::Pending, Status::Pending) => true,
        (Status::Friends, Status::Friends) => true,
        (Status::Blocked, Status::Blocked) => true,
        _ => false,
    }
}

spec fn touches(e: Relationship, user: Id, other: Id, status: Status) -> bool {
    e.status == status && other != user && (edge_key(e) == (user, other) || edge_key(e) == (
        other,
        user,
    ))
}

proof fn lemma_len(s: Seq<Relationship>)
    requires
        distinct_keys(s),
    ensures
        edges_map(s).dom().finite(),
        edges_map(s).dom().len() == s.len(),
    decreases s.len(),
{
    lemma_map_domain(s);
    if s.len() > 0 {
        let t = s.drop_last();
        lemma_len(t);
        lemma_map_domain(t);
    }
}

proof fn lemma_fresh(
    s: Seq<Relationship>,
    i: int,
    prev: Seq<Id>,
    user: Id,
    other: Id,
    status: Status,
)
    requires
        distinct_keys(s),
        ordered_edges(s),
        0 <= i < s.len(),
        prev.no_duplicates(),
        forall|o: Id|
            prev.contains(o) <==> exists|j: int|
                0 <= j < i && #[trigger] touches(s[j], user, o, status),
        edge_key(s[i]) == (user, other) || edge_key(s[i]) == (other, user),
    ensures
        prev.push(other).no_duplicates(),
        other != user,
{
    assert(!prev.contains(other));
}

proof fn lemma_touches(s: Seq<Relationship>, user: Id, other: Id, status: Status)
    requires
        distinct_keys(s),
        ordered_edges(s),
    ensures
        (exists|j: int| 0 <= j < s.len() && #[trigger] touches(s[j], user, other, status))
            <==> linked(edges_map(s), user, other, status),
{
    lemma_map_domain(s);
    let k = canonical(user, other);
    if exists|j: int| 0 <= j < s.len() && #[trigger] touches(s[j], user, other, status) {
        let j = choose|j: int| 0 <= j < s.len() && #[trigger] touches(s[j], user, other, status);
        lemma_map_value(s, j);
    }
    if linked(edges_map(s), user, other, status) {
        let j = choose|j: int| 0 <= j < s.len() && edge_key(#[trigger] s[j]) == k;
        lemma_map_value(s, j);
        assert(touches(s[j], user, other, status));
    }
}
} // verus!
