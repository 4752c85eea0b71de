//! Password hashing with Argon2, through the `argon2` crate.

use argon2::{PasswordHasher, PasswordVerifier};
use vstd::prelude::*;

verus! {
/// The PHC string that `Argon2::default().hash_password` gives for a
/// password and a B64 salt, where it gives one.
pub uninterp spec fn argon2_hash(password: Seq<char>, salt: Seq<char>) -> Option<Seq<char>>;

/// Whether `PasswordHash::new` reads `stored` as a PHC string.
pub uninterp spec fn phc_parses(stored: Seq<char>) -> bool;

/// Whether `stored` is read as a PHC string and
/// `Argon2::default().verify_password` accepts the password against it.
pub uninterp spec fn argon2_verifies(password: Seq<char>, stored: Seq<char>) -> bool;

/// What comes of checking a password against a stored hash.
#[derive(Clone, Copy, Debug, PartialEq, Eq, Structural)]
pub enum PasswordCheck {
    /// The password is the one that was hashed.
    Verified,
    /// The stored text is a hash, of another password.
    Mismatch,
    /// The stored text does not have the form of a hash.
    Corrupt,
}

/// The outcome of checking a password against a stored text.
pub open spec fn password_check(password: Seq<char>, stored: Seq<char>) -> PasswordCheck {
    if !phc_parses(stored) {
        PasswordCheck::Corrupt
    } else if argon2_verifies(password, stored) {
        PasswordCheck::Verified
    } else {
        PasswordCheck::Mismatch
    }
}

/// Calls `SaltString::generate` with the operating system's random source.
/// The salt is random: nothing is claimed of it.
#[verifier::external_body]
fn generate_salt() -> String {
    let salt = argon2::password_hash::SaltString::generate(
        &mut argon2::password_hash::rand_core::OsRng,
    );
    salt.as_str().to_string()
}

/// Calls `SaltString::from_b64`, then `Argon2::default().hash_password`, and
/// prints the hash as a PHC string.
/// Trusted: the result is the named function of password and salt, and a
/// hash that was produced is read back as a PHC string and verifies against
/// the password it was produced from (verification recomputes the hash from
/// the parameters and salt that the PHC string records, and compares).
#[verifier::external_body]
fn hash_with_salt(password: &str, salt: &str) -> (r: Option<String>)
    ensures
        r is Some <==> argon2_hash(password@, salt@) is Some,
        r matches Some(h) ==> Some(h@) == argon2_hash(password@, salt@) && phc_parses(h@)
            && argon2_verifies(password@, h@),
{
    let salt = argon2::password_hash::SaltString::from_b64(salt).ok()?;
    let hash = argon2::Argon2::default().hash_password(password.as_bytes(), &salt).ok()?;
    Some(hash.to_string())
}

/// Calls `PasswordHash::new` on the stored text, then
/// `Argon2::default().verify_password`.
/// Trusted: the stored text is corrupt exactly where `PasswordHash::new`
/// does not read it, and otherwise the password is verified exactly where
/// `verify_password` accepts it: each under its name.
#[verifier::external_body]
fn check_password(password: &str, stored: &str) -> (r: PasswordCheck)
    ensures
        r == password_check(password@, stored@),
{
    match argon2::PasswordHash::new(stored) {
        Ok(parsed) => match argon2::Argon2::default().verify_password(
            password.as_bytes(),
            &parsed,
        ) {
            Ok(()) => PasswordCheck::Verified,
            Err(_) => PasswordCheck::Mismatch,
        },
        Err(_) => PasswordCheck::Corrupt,
    }
}

/// A hash that was or was not produced, as plain text.
pub open spec fn hash_text(hash: Option<String>) -> Option<Seq<char>> {
    match hash {
        Some(h) => Some(h@),
        None => None,
    }
}

/// Hashes a password under a freshly generated random salt.
///
/// Whatever salt is drawn, the result is the Argon2 hash of the password
/// under some salt, and `None` only where there is none under that salt. A
/// hash that is returned verifies against the password.
pub fn hash_password(password: &str) -> (r: Option<String>)
    ensures
        exists|salt: Seq<char>| hash_text(r) == #[trigger] argon2_hash(password@, salt),
        r matches Some(h) ==> password_check(password@, h@) == PasswordCheck::Verified,
{
    let salt = generate_salt();
    let hash = hash_with_salt(password, salt.as_str());
    assert(hash_text(hash) == argon2_hash(password@, salt@));
    hash
}

/// Checks a password against a stored hash, and tells a stored text that
/// is no hash at all from the hash of another password.
pub fn verify_password(password: &str, stored: &str) -> (r: PasswordCheck)
    ensures
        r == password_check(password@, stored@),
{
    check_password(password, stored)
}

} // verus!
