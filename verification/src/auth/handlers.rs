//! Registration, login and logout.

use crate::auth::jwt::{
    create_jwt_at, expiry_at, issued_token, ClaimsView, TOKEN_LIFETIME_SECS,
};
use crate::auth::middleware::{authorized, validated, CurrentUserView};
use crate::auth::models::TokenResponse;
use crate::auth::password::{
    hash_password, password_check, phc_parses, verify_password, PasswordCheck,
};
use crate::auth::sessions::{
    after_logout, has_session, has_user_id, has_username, user_named, valid_accounts,
    with_session, with_user, AuthView, Session, SessionAuthenticator,
};
use crate::clock::{now_utc, utc_timestamp};
use crate::error::{ApiError, Fault};
use crate::ids::{uuid_text, Id};
use crate::models::user::{LoginInput, RegisterInput, User, UserView};
use vstd::prelude::*;

verus! {
/// How long a session lasts, in seconds: two days.
pub const SESSION_LIFETIME_SECS: i64 = 172_800;

/// How long the browser keeps the credential cookie, in seconds: seven days.
pub const COOKIE_MAX_AGE_SECS: i64 = 604_800;

/// What a successful login hands back.
#[derive(Debug, PartialEq, Eq)]
pub struct LoginResponse {
    /// The bearer credential.
    pub token: String,
    /// The value of the `Set-Cookie` header that carries the credential.
    pub set_cookie: String,
    /// The session that was created.
    pub session: Session,
}

impl LoginResponse {
    /// The body of the answer: the bearer credential.
    pub fn body(&self) -> (r: TokenResponse)
        ensures
            r.token@ == self.token@,
    {
        TokenResponse { token: self.token.clone() }
    }
}

/// The `Set-Cookie` header value that the `cookie` crate prints for a cookie
/// with these attributes.
pub uninterp spec fn set_cookie_text(
    name: Seq<char>,
    value: Seq<char>,
    path: Seq<char>,
    max_age_secs: i64,
    http_only: bool,
    secure: bool,
    same_site_strict: bool,
) -> Seq<char>;

/// Builds a cookie with `Cookie::build` and the builder's `http_only`,
/// `secure`, `same_site` (`Strict`, else `Lax`), `path` and `max_age`, and
/// prints it with its `Display`.
/// Trusted: the text is the named function of the attributes.
#[verifier::external_body]
fn render_cookie(
    name: &str,
    value: &str,
    path: &str,
    max_age_secs: i64,
    http_only: bool,
    secure: bool,
    same_site_strict: bool,
) -> (r: String)
    ensures
        r@ == set_cookie_text(
            name@,
            value@,
            path@,
            max_age_secs,
            http_only,
            secure,
            same_site_strict,
        ),
{
    let same_site = if same_site_strict {
        axum_extra::extract::cookie::SameSite::Strict
    } else {
        axum_extra::extract::cookie::SameSite::Lax
    };
    axum_extra::extract::cookie::Cookie::build((name, value))
        .http_only(http_only)
        .secure(secure)
        .same_site(same_site)
        .path(path)
        .max_age(time::Duration::seconds(max_age_secs))
        .to_string()
}

/// The cookie that carries a credential: named `token`, for every path,
/// kept from scripts, sent over secure transport only and never across
/// sites.
pub open spec fn credential_cookie(token: Seq<char>) -> Seq<char> {
    set_cookie_text("token"@, token, "/"@, COOKIE_MAX_AGE_SECS, true, true, true)
}

/// The name and password are those of a registered user.
pub open spec fn credentials_match(v: AuthView, username: Seq<char>, password: Seq<char>) -> bool {
    has_username(v.users, username) && password_check(
        password,
        user_named(v.users, username).password_hash,
    ) == PasswordCheck::Verified
}

/// A user of this name is registered, and what is stored as the hash of
/// the user's password does not have the form of a hash.
pub open spec fn stored_hash_corrupt(v: AuthView, username: Seq<char>) -> bool {
    has_username(v.users, username) && !phc_parses(user_named(v.users, username).password_hash)
}

/// The user that a credential stands for until `until`: at every earlier
/// instant the credential validates as that user.
pub open spec fn valid_until(
    v: AuthView,
    secret: Seq<char>,
    token: Seq<char>,
    user: CurrentUserView,
    until: int,
) -> bool {
    forall|at: i64| at < until ==> #[trigger] validated(v, secret, token, at) == Some(user)
}

/// The claims of the credential issued to a user for a session.
pub open spec fn session_claims(
    user_id: Id,
    session_id: Id,
    username: Seq<char>,
    exp: usize,
) -> ClaimsView {
    ClaimsView {
        sub: uuid_text(user_id.value),
        username,
        session_id: uuid_text(session_id.value),
        exp,
    }
}

/// The session opened at `now` under `token` for `user_id`.
pub open spec fn opened_session(token: Id, user_id: Id, now: i64) -> Session {
    Session {
        token,
        user_id,
        created_at: now,
        expires_at: (now + SESSION_LIFETIME_SECS) as i64,
    }
}

/// Whether a session can be opened: the token is new, the expiry can be
/// represented, the credential can be issued, and the credential expires
/// before the session does.
pub open spec fn can_open_session(
    v: AuthView,
    user_id: Id,
    username: Seq<char>,
    session_id: Id,
    issued_at: i64,
    now: i64,
    secret: Seq<char>,
) -> bool {
    &&& !has_session(v.sessions, session_id)
    &&& now + SESSION_LIFETIME_SECS <= i64::MAX
    &&& issued_at + TOKEN_LIFETIME_SECS < now + SESSION_LIFETIME_SECS
    &&& issued_token(
        secret,
        uuid_text(user_id.value),
        uuid_text(session_id.value),
        username,
        issued_at,
    ) is Some
}

/// Records a new user under a name, given the hash of the password, a
/// candidate identity and the time.
///
/// A name that is taken is a conflict. A missing hash is a hashing error,
/// and an identity that is already in use is an internal error. In each
/// case nothing changes. Otherwise the user is added and returned.
pub fn register_user(
    auth: &mut SessionAuthenticator,
    username: &String,
    password_hash: Option<String>,
    user_id: Id,
    now: i64,
) -> (r: Result<User, ApiError>)
    requires
        old(auth).wf(),
    ensures
        final(auth).wf(),
        has_username(old(auth)@.users, username@) ==> (r matches Err(e) && e == ApiError::Conflict
            && final(auth)@ == old(auth)@),
        !has_username(old(auth)@.users, username@) && password_hash is None ==> (r matches Err(e)
            && e == ApiError::Internal(Fault::Hashing) && final(auth)@ == old(auth)@),
        !has_username(old(auth)@.users, username@) && password_hash is Some && has_user_id(
            old(auth)@.users,
            user_id,
        ) ==> (r matches Err(e) && e == ApiError::Internal(Fault::Other) && final(auth)@ == old(auth)@),
        !has_username(old(auth)@.users, username@) && password_hash is Some && !has_user_id(
            old(auth)@.users,
            user_id,
        ) ==> (r matches Ok(user) && user@ == (UserView {
            id: user_id,
            username: username@,
            password_hash: password_hash->0@,
            created_at: now,
        }) && final(auth)@ == with_user(old(auth)@, user@)),
{
    if auth.find_user(username).is_some() {
        return Err(ApiError::Conflict);
    }
    let hash = match password_hash {
        Some(h) => h,
        None => {
            return Err(ApiError::Internal(Fault::Hashing));
        },
    };
    if auth.knows_user_id(user_id) {
        return Err(ApiError::Internal(Fault::Other));
    }
    let user = User {
        id: user_id,
        username: username.clone(),
        password_hash: hash,
        created_at: now,
    };
    let copy = user.clone();
    auth.add_user(user);
    Ok(copy)
}

/// Registers a user: hashes the password under a fresh random salt, draws a
/// random identity, and records the user at the current time.
///
/// A name that is taken is always a conflict. For a new name, whatever the
/// hasher, the random source and the clock return: either the user is added
/// under that name, with a hash that verifies against the password, or
/// the error is internal and nothing changes.
pub fn register(auth: &mut SessionAuthenticator, payload: RegisterInput) -> (r: Result<
    User,
    ApiError,
>)
    requires
        old(auth).wf(),
    ensures
        final(auth).wf(),
        has_username(old(auth)@.users, payload.username@) ==> (r matches Err(e) && e
            == ApiError::Conflict && final(auth)@ == old(auth)@),
        !has_username(old(auth)@.users, payload.username@) ==> match r {
            Ok(user) => user@.username == payload.username@ && password_check(
                payload.password@,
                user@.password_hash,
            ) == PasswordCheck::Verified && !has_user_id(old(auth)@.users, user.id) && final(auth)@
                == with_user(old(auth)@, user@),
            Err(e) => (e == ApiError::Internal(Fault::Hashing) || e == ApiError::Internal(
                Fault::Other,
            )) && final(auth)@ == old(auth)@,
        },
{
    let hash = hash_password(payload.password.as_str());
    let user_id = Id::random();
    let now = now_utc();
    register_user(auth, &payload.username, hash, user_id, now)
}

/// Opens a session for a user whose credentials have been checked: creates
/// the session under the given token, expiring `SESSION_LIFETIME_SECS`
/// after `now`, and issues the bearer credential at `issued_at`.
///
/// Succeeds exactly when `can_open_session` holds; otherwise the error is
/// internal and nothing changes. On success the claims of the credential
/// are authorized, as the same user, at every instant before the session
/// and the credential expire.
pub fn open_session(
    auth: &mut SessionAuthenticator,
    user_id: Id,
    username: &String,
    session_id: Id,
    issued_at: i64,
    now: i64,
    secret: &str,
) -> (r: Result<LoginResponse, ApiError>)
    requires
        old(auth).wf(),
    ensures
        final(auth).wf(),
        can_open_session(old(auth)@, user_id, username@, session_id, issued_at, now, secret@)
            ==> (r matches Ok(resp) && {
            &&& resp.session == opened_session(session_id, user_id, now)
            &&& Some(resp.token@) == issued_token(
                secret@,
                uuid_text(user_id.value),
                uuid_text(session_id.value),
                username@,
                issued_at,
            )
            &&& resp.set_cookie@ == credential_cookie(resp.token@)
            &&& final(auth)@ == with_session(old(auth)@, resp.session)
            &&& valid_until(
                final(auth)@,
                secret@,
                resp.token@,
                (CurrentUserView { id: user_id, username: username@, session_id }),
                issued_at + TOKEN_LIFETIME_SECS,
            )
            &&& forall|exp: usize, at: i64|
                at < resp.session.expires_at && at < exp ==> #[trigger] authorized(
                    final(auth)@,
                    session_claims(user_id, session_id, username@, exp),
                    at,
                ) == Some(CurrentUserView { id: user_id, username: username@, session_id })
        }),
        !can_open_session(old(auth)@, user_id, username@, session_id, issued_at, now, secret@)
            ==> (r matches Err(e) && e == ApiError::Internal(Fault::Other) && final(auth)@ == old(auth)@),
{
    if auth.knows_session(session_id) {
        return Err(ApiError::Internal(Fault::Other));
    }
    if now > i64::MAX - SESSION_LIFETIME_SECS {
        return Err(ApiError::Internal(Fault::Other));
    }
    if issued_at as i128 + TOKEN_LIFETIME_SECS as i128 >= now as i128 + SESSION_LIFETIME_SECS as i128 {
        return Err(ApiError::Internal(Fault::Other));
    }
    let user_text = user_id.text();
    let session_text = session_id.text();
    let token = match create_jwt_at(
        user_text.as_str(),
        session_text.as_str(),
        username.as_str(),
        issued_at,
        secret,
    ) {
        Some(t) => t,
        None => {
            return Err(ApiError::Internal(Fault::Other));
        },
    };
    let session = Session {
        token: session_id,
        user_id,
        created_at: now,
        expires_at: now + SESSION_LIFETIME_SECS,
    };
    let set_cookie = render_cookie(
        "token",
        token.as_str(),
        "/",
        COOKIE_MAX_AGE_SECS,
        true,
        true,
        true,
    );
    auth.add_session(session);
    proof {
        let sessions = auth@.sessions;
        assert(sessions[sessions.len() - 1] == session);
    }
    Ok(LoginResponse { token, set_cookie, session })
}

/// Logs a user in by name and password.
///
/// Fails with the authentication error, uniformly, when no user has the
/// name or the stored hash is that of another password, and with an
/// internal error when what is stored is no hash at all; nothing changes
/// then. When the credentials match, whatever the random source
/// and the clocks return: either a new session of that user is recorded
/// and a credential is issued for it, whose claims are authorized as that
/// user until the session or the credential expires; or the error is
/// internal and nothing changes.
pub fn login(auth: &mut SessionAuthenticator, payload: LoginInput, secret: &str) -> (r: Result<
    LoginResponse,
    ApiError,
>)
    requires
        old(auth).wf(),
    ensures
        final(auth).wf(),
        stored_hash_corrupt(old(auth)@, payload.username@) ==> (r matches Err(e) && e
            == ApiError::Internal(Fault::CorruptHash) && final(auth)@ == old(auth)@),
        !credentials_match(old(auth)@, payload.username@, payload.password@) && !stored_hash_corrupt(
            old(auth)@,
            payload.username@,
        ) ==> (r matches Err(e) && e == ApiError::Auth && final(auth)@ == old(auth)@),
        credentials_match(old(auth)@, payload.username@, payload.password@) ==> match r {
            Ok(resp) => {
                let user = user_named(old(auth)@.users, payload.username@);
                &&& resp.session.user_id == user.id
                &&& !has_session(old(auth)@.sessions, resp.session.token)
                &&& resp.session.expires_at == resp.session.created_at + SESSION_LIFETIME_SECS
                &&& final(auth)@ == with_session(old(auth)@, resp.session)
                &&& resp.set_cookie@ == credential_cookie(resp.token@)
                &&& exists|issued_at: i64|
                    Some(resp.token@) == #[trigger] issued_token(
                        secret@,
                        uuid_text(user.id.value),
                        uuid_text(resp.session.token.value),
                        payload.username@,
                        issued_at,
                    ) && issued_at + TOKEN_LIFETIME_SECS < resp.session.expires_at && valid_until(
                        final(auth)@,
                        secret@,
                        resp.token@,
                        (CurrentUserView {
                            id: user.id,
                            username: payload.username@,
                            session_id: resp.session.token,
                        }),
                        issued_at + TOKEN_LIFETIME_SECS,
                    )
                &&& forall|exp: usize, at: i64|
                    at < resp.session.expires_at && at < exp ==> #[trigger] authorized(
                        final(auth)@,
                        session_claims(user.id, resp.session.token, payload.username@, exp),
                        at,
                    ) == Some(
                        CurrentUserView {
                            id: user.id,
                            username: payload.username@,
                            session_id: resp.session.token,
                        },
                    )
            },
            Err(e) => e == ApiError::Internal(Fault::Other) && final(auth)@ == old(auth)@,
        },
{
    let user_id = match auth.find_user(&payload.username) {
        Some(user) => {
            match verify_password(payload.password.as_str(), user.password_hash.as_str()) {
                PasswordCheck::Verified => user.id,
                PasswordCheck::Mismatch => {
                    return Err(ApiError::Auth);
                },
                PasswordCheck::Corrupt => {
                    return Err(ApiError::Internal(Fault::CorruptHash));
                },
            }
        },
        None => {
            return Err(ApiError::Auth);
        },
    };
    let session_id = Id::random();
    let issued_at = utc_timestamp();
    let now = now_utc();
    open_session(auth, user_id, &payload.username, session_id, issued_at, now, secret)
}

/// Deletes the session of the given token, if there is one. Credentials
/// bound to it are no longer authorized. Returns whether there was one.
pub fn logout(auth: &mut SessionAuthenticator, session_id: Id) -> (removed: bool)
    requires
        old(auth).wf(),
    ensures
        final(auth).wf(),
        removed == has_session(old(auth)@.sessions, session_id),
        final(auth)@ == after_logout(old(auth)@, session_id),
{
    auth.remove_session(session_id)
}

/// A credential expires before the session it was issued for, whenever both
/// are issued at the same instant: the credential has to be refreshed more
/// often than the user has to log in again.
pub proof fn law_credential_expires_first(now: i64)
    requires
        0 <= now,
        now + SESSION_LIFETIME_SECS <= i64::MAX,
    ensures
        expiry_at(now) matches Some(exp) ==> exp < opened_session(
            Id { value: 0 },
            Id { value: 0 },
            now,
        ).expires_at,
{
}

/// Once a user is registered under a name with a hash that verifies
/// against a password, that name and password match, and the same name
/// with any password that the hash does not verify against does not.
pub proof fn law_registered_credentials(
    v: AuthView,
    user: UserView,
    password: Seq<char>,
    other: Seq<char>,
)
    requires
        valid_accounts(v),
        !has_username(v.users, user.username),
        password_check(password, user.password_hash) == PasswordCheck::Verified,
    ensures
        credentials_match(with_user(v, user), user.username, password),
        password_check(other, user.password_hash) != PasswordCheck::Verified ==> !credentials_match(
            with_user(v, user),
            user.username,
            other,
        ),
{
    let users = with_user(v, user).users;
    let last = users.len() - 1;
    assert(users[last] == user);
}
} // verus!
