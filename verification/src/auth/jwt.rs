//! Bearer credentials: signed, self-contained tokens that carry the user,
//! the session and an expiry.

use crate::clock::utc_timestamp;
use jsonwebtoken::errors::ErrorKind;
use jsonwebtoken::{decode, encode, DecodingKey, EncodingKey, Header, Validation};
use serde_json::Value;
use vstd::prelude::*;

verus! {
/// How long a bearer credential is valid, in seconds: one hour.
pub const TOKEN_LIFETIME_SECS: i64 = 3600;

/// What a bearer credential asserts.
#[derive(Debug, PartialEq, Eq)]
pub struct Claims {
    /// The user's identity, as text.
    pub sub: String,
    pub username: String,
    /// The identity of the session the credential was issued for, as text.
    pub session_id: String,
    /// The expiry, in seconds since the Unix epoch.
    pub exp: usize,
}

/// What `Claims` hold, as plain values.
pub struct ClaimsView {
    pub sub: Seq<char>,
    pub username: Seq<char>,
    pub session_id: Seq<char>,
    pub exp: usize,
}

impl View for Claims {
    type V = ClaimsView;

    open spec fn view(&self) -> ClaimsView {
        ClaimsView {
            sub: self.sub@,
            username: self.username@,
            session_id: self.session_id@,
            exp: self.exp,
        }
    }
}

/// The error with which `jsonwebtoken` rejects a token.
#[verifier::external_type_specification]
#[verifier::external_body]
pub struct ExTokenError(jsonwebtoken::errors::Error);

/// The token that `jsonwebtoken::encode` gives for the four claims under the
/// default header (HS256) and the secret, where it gives one.
pub uninterp spec fn hs256_token(
    secret: Seq<char>,
    sub: Seq<char>,
    username: Seq<char>,
    session_id: Seq<char>,
    exp: usize,
) -> Option<Seq<char>>;

/// The claims that `jsonwebtoken::decode` reads from a token under the
/// secret, where the token is well formed, carries a valid HS256 signature
/// and holds the four claims. Expiry is not looked at.
pub uninterp spec fn hs256_claims(secret: Seq<char>, token: Seq<char>) -> Option<ClaimsView>;

/// Calls `jsonwebtoken::encode` with `Header::default()`, the claims as a
/// JSON object of the fields `sub`, `username`, `session_id` and `exp` in
/// that order, and `EncodingKey::from_secret`.
/// Trusted: the token is the named function of the secret and the claims,
/// and a token that was issued is decoded under the same secret to the
/// claims it was issued for (decoding recomputes the signature over the
/// same text and reads the same JSON object back).
#[verifier::external_body]
fn encode_claims(claims: &Claims, secret: &str) -> (r: Option<String>)
    ensures
        r matches Some(t) ==> hs256_claims(secret@, t@) == Some(claims@),
        r is Some <==> hs256_token(
            secret@,
            claims.sub@,
            claims.username@,
            claims.session_id@,
            claims.exp,
        ) is Some,
        r matches Some(t) ==> Some(t@) == hs256_token(
            secret@,
            claims.sub@,
            claims.username@,
            claims.session_id@,
            claims.exp,
        ),
{
    let mut body = serde_json::Map::new();
    body.insert("sub".to_string(), Value::from(claims.sub.as_str()));
    body.insert("username".to_string(), Value::from(claims.username.as_str()));
    body.insert("session_id".to_string(), Value::from(claims.session_id.as_str()));
    body.insert("exp".to_string(), Value::from(claims.exp));
    encode(&Header::default(), &body, &EncodingKey::from_secret(secret.as_bytes())).ok()
}

/// Verifies a token's signature and reads its claims.
///
/// Calls `jsonwebtoken::decode` with `DecodingKey::from_secret` and
/// `Validation::default()` with `validate_exp` switched off, and reads the
/// four claims from the payload. Expiry is left to `authorize`, which checks
/// it against a clock that is given.
/// Trusted: the result is the named function of secret and token.
#[verifier::external_body]
pub fn decode_jwt(token: &str, secret: &str) -> (r: Result<Claims, jsonwebtoken::errors::Error>)
    ensures
        r is Ok <==> hs256_claims(secret@, token@) is Some,
        r matches Ok(claims) ==> Some(claims@) == hs256_claims(secret@, token@),
{
    let mut rules = Validation::default();
    rules.validate_exp = false;
    let body = decode::<Value>(token, &DecodingKey::from_secret(secret.as_bytes()), &rules)?.claims;
    let text = |k: &str| Some(body.get(k)?.as_str()?.to_string());
    let exp = || usize::try_from(body.get("exp")?.as_u64()?).ok();
    match (text("sub"), text("username"), text("session_id"), exp()) {
        (Some(sub), Some(username), Some(session_id), Some(exp)) => Ok(
            Claims { sub, username, session_id, exp },
        ),
        _ => Err(ErrorKind::InvalidToken.into()),
    }
}

/// The expiry of a credential issued at `now`, where it is a time after the
/// epoch that both the clock's and the claim's integer type can hold.
pub open spec fn expiry_at(now: i64) -> Option<usize> {
    if 0 <= now + TOKEN_LIFETIME_SECS <= i64::MAX && now + TOKEN_LIFETIME_SECS <= usize::MAX {
        Some((now + TOKEN_LIFETIME_SECS) as usize)
    } else {
        None
    }
}

/// The credential issued at `now` for a user and a session, where one can
/// be issued.
pub open spec fn issued_token(
    secret: Seq<char>,
    user_id: Seq<char>,
    session_id: Seq<char>,
    username: Seq<char>,
    now: i64,
) -> Option<Seq<char>> {
    match expiry_at(now) {
        Some(exp) => hs256_token(secret, user_id, username, session_id, exp),
        None => None,
    }
}

/// Issues the credential for a user and a session at the instant `now`: it
/// expires `TOKEN_LIFETIME_SECS` later. `None` where that instant cannot
/// be represented or signing fails. A credential that is issued decodes
/// under the same secret to the claims it was issued for.
pub fn create_jwt_at(user_id: &str, session_id: &str, username: &str, now: i64, secret: &str) -> (r:
    Option<String>)
    ensures
        r is Some <==> issued_token(secret@, user_id@, session_id@, username@, now) is Some,
        r matches Some(t) ==> Some(t@) == issued_token(
            secret@,
            user_id@,
            session_id@,
            username@,
            now,
        ),
        r matches Some(t) ==> hs256_claims(secret@, t@) == Some(
            ClaimsView {
                sub: user_id@,
                username: username@,
                session_id: session_id@,
                exp: expiry_at(now)->0,
            },
        ),
{
    if now < -TOKEN_LIFETIME_SECS || now > i64::MAX - TOKEN_LIFETIME_SECS {
        return None;
    }
    let exp_secs: i64 = now + TOKEN_LIFETIME_SECS;
    if exp_secs < 0 || exp_secs as u64 > usize::MAX as u64 {
        return None;
    }
    let claims = Claims {
        sub: user_id.to_owned(),
        username: username.to_owned(),
        session_id: session_id.to_owned(),
        exp: exp_secs as usize,
    };
    encode_claims(&claims, secret)
}

/// A credential that was or was not issued, as plain text.
pub open spec fn token_text(token: Option<String>) -> Option<Seq<char>> {
    match token {
        Some(t) => Some(t@),
        None => None,
    }
}

/// Issues the credential for a user and a session at the current time.
///
/// Whatever the clock reads, the result is what `create_jwt_at` gives at
/// some instant: a credential that is returned is the one issued at that
/// instant, and none is returned only where none can be issued at it.
pub fn create_jwt(user_id: &str, session_id: &str, username: &str, secret: &str) -> (r: Option<
    String,
>)
    ensures
        exists|now: i64|
            token_text(r) == #[trigger] issued_token(
                secret@,
                user_id@,
                session_id@,
                username@,
                now,
            ),
{
    let now = utc_timestamp();
    let token = create_jwt_at(user_id, session_id, username, now, secret);
    assert(token_text(token) == issued_token(secret@, user_id@, session_id@, username@, now));
    token
}
} // verus!
