//! Validation of bearer credentials: the only path by which any other
//! component learns who is making a call.

use crate::auth::jwt::{decode_jwt, hs256_claims, Claims, ClaimsView};
use crate::auth::sessions::{
    after_logout, has_session, live_session, AuthView, SessionAuthenticator,
};
use crate::clock::now_utc;
use crate::error::ApiError;
use crate::ids::{parsed_uuid, Id};
use vstd::prelude::*;
use vstd::string::{StrSliceExecFns, StringExecFns};

verus! {
/// The authenticated identity behind a request or a connection.
#[derive(Debug, PartialEq, Eq)]
pub struct CurrentUser {
    pub id: Id,
    pub username: String,
    pub session_id: Id,
}

/// What a `CurrentUser` holds, as plain values.
pub struct CurrentUserView {
    pub id: Id,
    pub username: Seq<char>,
    pub session_id: Id,
}

impl View for CurrentUser {
    type V = CurrentUserView;

    open spec fn view(&self) -> CurrentUserView {
        CurrentUserView { id: self.id, username: self.username@, session_id: self.session_id }
    }
}

impl Clone for CurrentUser {
    fn clone(&self) -> (r: Self)
        ensures
            r == *self,
    {
        CurrentUser { id: self.id, username: self.username.clone(), session_id: self.session_id }
    }
}

/// The credential carried by an `Authorization` header value: what follows
/// the prefix `Bearer `, if the value starts with it.
pub open spec fn bearer_of(header: Seq<char>) -> Option<Seq<char>> {
    if header.len() >= 7 && header.subrange(0, 7) == "Bearer "@ {
        Some(header.skip(7))
    } else {
        None
    }
}

/// What decoded claims are checked for at `now`: the credential has not
/// expired; the claims name a user and a session by well-formed
/// identities; and that session exists, belongs to that user and has not
/// expired either.
pub open spec fn authorized(v: AuthView, claims: ClaimsView, now: i64) -> Option<CurrentUserView> {
    match (parsed_uuid(claims.sub), parsed_uuid(claims.session_id)) {
        (Some(user), Some(session)) => if now < claims.exp && live_session(
            v.sessions,
            Id { value: session },
            Id { value: user },
            now,
        ) {
            Some(
                CurrentUserView {
                    id: Id { value: user },
                    username: claims.username,
                    session_id: Id { value: session },
                },
            )
        } else {
            None
        },
        _ => None,
    }
}

/// Extracts the credential from an `Authorization` header value.
pub fn bearer_token(header: &str) -> (r: Option<String>)
    ensures
        r is Some <==> bearer_of(header@) is Some,
        r matches Some(t) ==> Some(t@) == bearer_of(header@),
{
    let n = header.unicode_len();
    if n < 7 {
        return None;
    }
    let prefix = String::from_str(header.substring_char(0, 7));
    let expected = String::from_str("Bearer ");
    if prefix == expected {
        let rest = String::from_str(header.substring_char(7, n));
        Some(rest)
    } else {
        None
    }
}

/// Checks decoded claims against the clock and the live sessions at the
/// instant `now`.
///
/// Succeeds exactly when the credential has not expired, both identities
/// in the claims are well formed, and the session exists, belongs to the
/// claimed user and has not expired; the caller then is that user. Every
/// failure is the same authentication error.
pub fn authorize(auth: &SessionAuthenticator, claims: &Claims, now: i64) -> (r: Result<
    CurrentUser,
    ApiError,
>)
    requires
        auth.wf(),
    ensures
        match r {
            Ok(user) => authorized(auth@, claims@, now) == Some(user@),
            Err(e) => e == ApiError::Auth && authorized(auth@, claims@, now) is None,
        },
{
    let user_id = match Id::parse(claims.sub.as_str()) {
        Some(id) => id,
        None => {
            return Err(ApiError::Auth);
        },
    };
    let session_id = match Id::parse(claims.session_id.as_str()) {
        Some(id) => id,
        None => {
            return Err(ApiError::Auth);
        },
    };
    if now >= 0 && claims.exp as u128 <= now as u128 {
        return Err(ApiError::Auth);
    }
    if !auth.session_is_live(session_id, user_id, now) {
        return Err(ApiError::Auth);
    }
    Ok(CurrentUser { id: user_id, username: claims.username.clone(), session_id })
}

/// What comes of validating a token at `now`: the stateless check, that
/// the token carries a valid signature and the claims, and then the checks
/// on the claims.
pub open spec fn validated(v: AuthView, secret: Seq<char>, token: Seq<char>, now: i64) -> Option<
    CurrentUserView,
> {
    match hs256_claims(secret, token) {
        Some(claims) => authorized(v, claims, now),
        None => None,
    }
}

/// What comes of validating a request by its `Authorization` header at
/// `now`.
pub open spec fn request_validated(
    v: AuthView,
    secret: Seq<char>,
    authorization: Option<Seq<char>>,
    now: i64,
) -> Option<CurrentUserView> {
    match authorization {
        Some(header) => match bearer_of(header) {
            Some(token) => validated(v, secret, token, now),
            None => None,
        },
        None => None,
    }
}

/// The user that a validation gave, if it gave one.
pub open spec fn user_view(r: Result<CurrentUser, ApiError>) -> Option<CurrentUserView> {
    match r {
        Ok(user) => Some(user@),
        Err(_) => None,
    }
}

/// Validates a bearer credential at the instant `now`: the signature
/// first, then the claims against the clock and the live session.
///
/// Succeeds exactly when both checks pass: the token carries a valid
/// signature under the secret, and its claims are authorized at `now`.
/// Every failure is the same authentication error.
pub fn validate_token_at(auth: &SessionAuthenticator, token: &str, secret: &str, now: i64) -> (r:
    Result<CurrentUser, ApiError>)
    requires
        auth.wf(),
    ensures
        user_view(r) == validated(auth@, secret@, token@, now),
        r matches Err(e) ==> e == ApiError::Auth,
{
    match decode_jwt(token, secret) {
        Ok(claims) => authorize(auth, &claims, now),
        Err(_) => Err(ApiError::Auth),
    }
}

/// Validates a bearer credential at the current time.
///
/// Whatever the clock reads, the result is what `validate_token_at` gives
/// at some instant.
pub fn validate_token(auth: &SessionAuthenticator, token: &str, secret: &str) -> (r: Result<
    CurrentUser,
    ApiError,
>)
    requires
        auth.wf(),
    ensures
        exists|now: i64| user_view(r) == #[trigger] validated(auth@, secret@, token@, now),
        r matches Err(e) ==> e == ApiError::Auth,
{
    let now = now_utc();
    let r = validate_token_at(auth, token, secret, now);
    assert(user_view(r) == validated(auth@, secret@, token@, now));
    r
}

/// An optional header value as plain text.
pub open spec fn header_text(header: Option<&str>) -> Option<Seq<char>> {
    match header {
        Some(h) => Some(h@),
        None => None,
    }
}

/// Authenticates a request by its `Authorization` header.
///
/// A missing header, or one that does not carry a bearer credential, is
/// rejected; otherwise the credential is validated as by `validate_token`.
/// Every failure is the same authentication error.
pub fn auth_middleware(
    auth: &SessionAuthenticator,
    authorization: Option<&str>,
    secret: &str,
) -> (r: Result<CurrentUser, ApiError>)
    requires
        auth.wf(),
    ensures
        exists|now: i64|
            user_view(r) == #[trigger] request_validated(
                auth@,
                secret@,
                header_text(authorization),
                now,
            ),
        r matches Err(e) ==> e == ApiError::Auth,
{
    let header = match authorization {
        Some(h) => h,
        None => {
            assert(request_validated(auth@, secret@, header_text(authorization), 0) is None);
            return Err(ApiError::Auth);
        },
    };
    match bearer_token(header) {
        Some(token) => {
            let now = now_utc();
            let r = validate_token_at(auth, token.as_str(), secret, now);
            assert(user_view(r) == request_validated(
                auth@,
                secret@,
                header_text(authorization),
                now,
            ));
            r
        },
        None => {
            assert(request_validated(auth@, secret@, header_text(authorization), 0) is None);
            Err(ApiError::Auth)
        },
    }
}

/// A request is authorized only if both checks pass: the credential has
/// not expired, and the session named in it exists, belongs to the user
/// named in it, and has not expired.
pub proof fn law_authorized_by_live_session(v: AuthView, claims: ClaimsView, now: i64)
    requires
        authorized(v, claims, now) is Some,
    ensures
        now < claims.exp,
        live_session(
            v.sessions,
            authorized(v, claims, now)->0.session_id,
            authorized(v, claims, now)->0.id,
            now,
        ),
        has_session(v.sessions, authorized(v, claims, now)->0.session_id),
{
}

/// Revocation: once a session is deleted, no claims bound to it are
/// authorized again, whatever else they hold and whenever they are checked,
/// even if the credential itself has not expired.
pub proof fn law_logout_revokes(v: AuthView, session_id: Id, claims: ClaimsView, now: i64)
    requires
        parsed_uuid(claims.session_id) == Some(session_id.value),
    ensures
        authorized(after_logout(v, session_id), claims, now) is None,
        forall|other: ClaimsView, at: i64|
            (#[trigger] authorized(after_logout(v, session_id), other, at)) matches Some(user)
                ==> user.session_id != session_id,
{
}
} // verus!
