//! The credential store and the session table.

use crate::ids::Id;
use crate::models::user::{User, UserView};
use vstd::prelude::*;

verus! {
/// A durable, revocable record that bearer credentials chain back to.
#[derive(Clone, Copy, Debug, PartialEq, Eq, Structural)]
pub struct Session {
    pub token: Id,
    pub user_id: Id,
    pub created_at: i64,
    pub expires_at: i64,
}

/// The users and sessions that an authenticator holds.
pub struct AuthView {
    pub users: Seq<UserView>,
    pub sessions: Seq<Session>,
}

/// Some user has this name.
pub open spec fn has_username(users: Seq<UserView>, name: Seq<char>) -> bool {
    exists|i: int| 0 <= i < users.len() && (#[trigger] users[i]).username == name
}

/// The user of this name, where there is one.
pub open spec fn user_named(users: Seq<UserView>, name: Seq<char>) -> UserView {
    users[choose|i: int| 0 <= i < users.len() && (#[trigger] users[i]).username == name]
}

/// Some user has this identity.
pub open spec fn has_user_id(users: Seq<UserView>, id: Id) -> bool {
    exists|i: int| 0 <= i < users.len() && (#[trigger] users[i]).id == id
}

/// The user of this identity, where there is one.
pub open spec fn user_with_id(users: Seq<UserView>, id: Id) -> UserView {
    users[choose|i: int| 0 <= i < users.len() && (#[trigger] users[i]).id == id]
}

/// Some session has this token.
pub open spec fn has_session(sessions: Seq<Session>, token: Id) -> bool {
    exists|i: int| 0 <= i < sessions.len() && (#[trigger] sessions[i]).token == token
}

/// A session with this token exists, belongs to `user`, and has not expired
/// at `now`.
pub open spec fn live_session(sessions: Seq<Session>, token: Id, user: Id, now: i64) -> bool {
    exists|i: int|
        0 <= i < sessions.len() && (#[trigger] sessions[i]).token == token && sessions[i].user_id
            == user && sessions[i].expires_at > now
}

/// The sessions without the one of this token.
pub open spec fn without_session(sessions: Seq<Session>, token: Id) -> Seq<Session> {
    sessions.filter(|s: Session| s.token != token)
}

/// The sessions that have not expired at `now`.
pub open spec fn unexpired(sessions: Seq<Session>, now: i64) -> Seq<Session> {
    sessions.filter(|s: Session| s.expires_at > now)
}

/// The accounts after the sessions that have expired at `now` are
/// destroyed.
pub open spec fn after_expiry(v: AuthView, now: i64) -> AuthView {
    AuthView { users: v.users, sessions: unexpired(v.sessions, now) }
}

/// Usernames, user identities and session tokens are each unique.
pub open spec fn valid_accounts(v: AuthView) -> bool {
    &&& forall|i: int, j: int|
        0 <= i < v.users.len() && 0 <= j < v.users.len() && i != j ==> (#[trigger] v.users[i]).username
            != (#[trigger] v.users[j]).username && v.users[i].id != v.users[j].id
    &&& forall|i: int, j: int|
        0 <= i < v.sessions.len() && 0 <= j < v.sessions.len() && i != j ==> (
        #[trigger] v.sessions[i]).token != (#[trigger] v.sessions[j]).token
}

/// The accounts after a user is added.
pub open spec fn with_user(v: AuthView, user: UserView) -> AuthView {
    AuthView { users: v.users.push(user), sessions: v.sessions }
}

/// The accounts after a session is added.
pub open spec fn with_session(v: AuthView, session: Session) -> AuthView {
    AuthView { users: v.users, sessions: v.sessions.push(session) }
}

/// The accounts after the session of this token is deleted.
pub open spec fn after_logout(v: AuthView, token: Id) -> AuthView {
    AuthView { users: v.users, sessions: without_session(v.sessions, token) }
}

proof fn lemma_filter_all(s: Seq<Session>, token: Id)
    requires
        forall|i: int| 0 <= i < s.len() ==> (#[trigger] s[i]).token != token,
    ensures
        without_session(s, token) == s,
    decreases s.len(),
{
    reveal(Seq::filter);
    if s.len() > 0 {
        lemma_filter_all(s.drop_last(), token);
    }
}

proof fn lemma_filter_remove(s: Seq<Session>, i: int, token: Id)
    requires
        0 <= i < s.len(),
        s[i].token == token,
        forall|a: int, b: int|
            0 <= a < s.len() && 0 <= b < s.len() && a != b ==> (#[trigger] s[a]).token != (
            #[trigger] s[b]).token,
    ensures
        without_session(s, token) == s.remove(i),
    decreases s.len(),
{
    reveal(Seq::filter);
    let t = s.drop_last();
    if i == s.len() - 1 {
        lemma_filter_all(t, token);
    } else {
        lemma_filter_remove(t, i, token);
    }
}

proof fn lemma_unexpired(s: Seq<Session>, now: i64)
    requires
        forall|a: int, b: int|
            0 <= a < s.len() && 0 <= b < s.len() && a != b ==> (#[trigger] s[a]).token != (
            #[trigger] s[b]).token,
    ensures
        forall|a: int, b: int|
            0 <= a < unexpired(s, now).len() && 0 <= b < unexpired(s, now).len() && a != b ==> (
            #[trigger] unexpired(s, now)[a]).token != (#[trigger] unexpired(s, now)[b]).token,
        forall|i: int|
            0 <= i < unexpired(s, now).len() ==> s.contains(#[trigger] unexpired(s, now)[i])
                && unexpired(s, now)[i].expires_at > now,
        forall|i: int|
            0 <= i < s.len() && s[i].expires_at > now ==> unexpired(s, now).contains(#[trigger] s[i]),
    decreases s.len(),
{
    reveal(Seq::filter);
    if s.len() > 0 {
        let t = s.drop_last();
        lemma_unexpired(t, now);
        let ft = unexpired(t, now);
    }
}

/// Destroying expired sessions changes nothing for anyone: whether a
/// session is alive at `now` or later is the same before and after.
pub proof fn law_expiry_keeps_live_sessions(v: AuthView, now: i64, token: Id, user: Id, at: i64)
    requires
        valid_accounts(v),
        now <= at,
    ensures
        valid_accounts(after_expiry(v, now)),
        live_session(after_expiry(v, now).sessions, token, user, at) == live_session(
            v.sessions,
            token,
            user,
            at,
        ),
{
    lemma_unexpired(v.sessions, now);
}

/// The credential store together with the session table.
pub struct SessionAuthenticator {
    users: Vec<User>,
    sessions: Vec<Session>,
}

impl View for SessionAuthenticator {
    type V = AuthView;

    closed spec fn view(&self) -> AuthView {
        AuthView { users: self.users@.map_values(|u: User| u@), sessions: self.sessions@ }
    }
}

impl SessionAuthenticator {
    /// Usernames, user identities and session tokens are each unique.
    pub open spec fn wf(&self) -> bool {
        valid_accounts(self@)
    }

    /// An authenticator without users or sessions.
    pub fn new() -> (a: SessionAuthenticator)
        ensures
            a.wf(),
            a@.users == Seq::<UserView>::empty(),
            a@.sessions == Seq::<Session>::empty(),
    {
        let a = SessionAuthenticator { users: Vec::new(), sessions: Vec::new() };
        a
    }

    /// The user of the given name, if there is one.
    pub fn find_user(&self, username: &String) -> (r: Option<&User>)
        requires
            self.wf(),
        ensures
            r is Some <==> has_username(self@.users, username@),
            r matches Some(u) ==> u@ == user_named(self@.users, username@),
    {
        let mut i: usize = 0;
        while i < self.users.len()
            invariant
                self.wf(),
                i <= self.users@.len(),
                forall|j: int| 0 <= j < i ==> (#[trigger] self@.users[j]).username != username@,
            decreases self.users@.len() - i,
        {
            if self.users[i].username == *username {
                assert(self@.users[i as int].username == username@);
                return Some(&self.users[i]);
            }
            i += 1;
        }
        None
    }

    /// The user of the given identity, if there is one.
    pub fn user_by_id(&self, id: Id) -> (r: Option<&User>)
        requires
            self.wf(),
        ensures
            r is Some <==> has_user_id(self@.users, id),
            r matches Some(u) ==> u@ == user_with_id(self@.users, id) && u.id == id,
    {
        let mut i: usize = 0;
        while i < self.users.len()
            invariant
                self.wf(),
                i <= self.users@.len(),
                forall|j: int| 0 <= j < i ==> (#[trigger] self@.users[j]).id != id,
            decreases self.users@.len() - i,
        {
            if self.users[i].id.value == id.value {
                assert(self@.users[i as int].id == id);
                return Some(&self.users[i]);
            }
            i += 1;
        }
        None
    }

    /// Whether some user has this identity.
    pub fn knows_user_id(&self, id: Id) -> (r: bool)
        ensures
            r == has_user_id(self@.users, id),
    {
        let mut i: usize = 0;
        while i < self.users.len()
            invariant
                i <= self.users@.len(),
                forall|j: int| 0 <= j < i ==> (#[trigger] self@.users[j]).id != id,
            decreases self.users@.len() - i,
        {
            if self.users[i].id.value == id.value {
                assert(self@.users[i as int].id == id);
                return true;
            }
            i += 1;
        }
        false
    }

    /// Adds a user whose name and identity are both new.
    pub(crate) fn add_user(&mut self, user: User)
        requires
            old(self).wf(),
            !has_username(old(self)@.users, user@.username),
            !has_user_id(old(self)@.users, user@.id),
        ensures
            final(self).wf(),
            final(self)@ == with_user(old(self)@, user@),
    {
        let ghost before = self@;
        self.users.push(user);
        assert(self@.users =~= before.users.push(user@));
        assert(self@.sessions == before.sessions);
        assert forall|i: int, j: int|
            0 <= i < self@.users.len() && 0 <= j < self@.users.len() && i != j implies (
        #[trigger] self@.users[i]).username != (#[trigger] self@.users[j]).username
            && self@.users[i].id != self@.users[j].id by {
        }
    }

    fn find_session(&self, token: Id) -> (r: Option<usize>)
        ensures
            r is Some <==> has_session(self@.sessions, token),
            r matches Some(i) ==> i < self@.sessions.len() && self@.sessions[i as int].token
                == token,
    {
        let mut i: usize = 0;
        while i < self.sessions.len()
            invariant
                i <= self.sessions@.len(),
                forall|j: int| 0 <= j < i ==> (#[trigger] self@.sessions[j]).token != token,
            decreases self.sessions@.len() - i,
        {
            if self.sessions[i].token.value == token.value {
                return Some(i);
            }
            i += 1;
        }
        None
    }

    /// Whether some session has this token.
    pub fn knows_session(&self, token: Id) -> (r: bool)
        ensures
            r == has_session(self@.sessions, token),
    {
        self.find_session(token).is_some()
    }

    /// Whether the session of this token exists, belongs to `user` and has
    /// not expired at `now`.
    pub fn session_is_live(&self, token: Id, user: Id, now: i64) -> (r: bool)
        requires
            self.wf(),
        ensures
            r == live_session(self@.sessions, token, user, now),
    {
        match self.find_session(token) {
            Some(i) => {
                let s = self.sessions[i];
                let live = s.user_id.value == user.value && s.expires_at > now;
                live
            },
            None => false,
        }
    }

    /// Adds a session whose token is new.
    pub(crate) fn add_session(&mut self, session: Session)
        requires
            old(self).wf(),
            !has_session(old(self)@.sessions, session.token),
        ensures
            final(self).wf(),
            final(self)@ == with_session(old(self)@, session),
    {
        let ghost before = self@;
        self.sessions.push(session);
        assert(self@.users =~= before.users);
        assert forall|i: int, j: int|
            0 <= i < self@.sessions.len() && 0 <= j < self@.sessions.len() && i != j implies (
        #[trigger] self@.sessions[i]).token != (#[trigger] self@.sessions[j]).token by {
        }
    }

    /// Destroys the sessions that have expired at `now`. The others are
    /// kept as they are, in their order. Returns how many were destroyed.
    pub fn expire_sessions(&mut self, now: i64) -> (destroyed: usize)
        requires
            old(self).wf(),
        ensures
            final(self).wf(),
            final(self)@ == after_expiry(old(self)@, now),
            destroyed == old(self)@.sessions.len() - final(self)@.sessions.len(),
    {
        let ghost before = self@;
        let ghost keep = |s: Session| s.expires_at > now;
        let ghost mut k: int = 0;
        let mut i: usize = 0;
        let mut destroyed: usize = 0;
        let total = self.sessions.len();
        while i < self.sessions.len()
            invariant
                0 <= k <= before.sessions.len(),
                total == before.sessions.len(),
                valid_accounts(before),
                keep == |s: Session| s.expires_at > now,
                self@.users == before.users,
                i == before.sessions.take(k).filter(keep).len(),
                destroyed == k - i,
                self@.sessions == before.sessions.take(k).filter(keep) + before.sessions.skip(k),
            decreases before.sessions.len() - k,
        {
            proof {
                let s = before.sessions;
                assert(s.take(k + 1) =~= s.take(k).push(s[k]));
                s.take(k).lemma_filter_push(s[k], keep);
            }
            if self.sessions[i].expires_at > now {
                i += 1;
            } else {
                self.sessions.remove(i);
                destroyed += 1;
            }
            proof {
                k = k + 1;
            }
        }
        proof {
            lemma_unexpired(before.sessions, now);
            assert(self@.sessions == unexpired(before.sessions, now));
        }
        destroyed
    }

    /// Deletes the session of this token. Returns whether there was one.
    pub(crate) fn remove_session(&mut self, token: Id) -> (removed: bool)
        requires
            old(self).wf(),
        ensures
            final(self).wf(),
            removed == has_session(old(self)@.sessions, token),
            final(self)@ == after_logout(old(self)@, token),
    {
        match self.find_session(token) {
            Some(i) => {
                proof {
                    lemma_filter_remove(self@.sessions, i as int, token);
                }
                let ghost before = self@;
                self.sessions.remove(i);
                assert(self@.users =~= before.users);
                assert forall|a: int, b: int|
                    0 <= a < self@.sessions.len() && 0 <= b < self@.sessions.len() && a
                        != b implies (#[trigger] self@.sessions[a]).token != (
                #[trigger] self@.sessions[b]).token by {
                }
                true
            },
            None => {
                proof {
                    lemma_filter_all(self@.sessions, token);
                }
                false
            },
        }
    }
}
} // verus!
