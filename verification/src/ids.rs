//! Opaque 128-bit identities for users, rooms, sessions and messages.
//!
//! An identity is held as the 128-bit number that its UUID packs. Text forms
//! are produced and read by the `uuid` crate.

use vstd::prelude::*;

verus! {
/// A 128-bit identity. Identities are totally ordered by their numeric value,
/// which is the order of the UUIDs they stand for.
#[derive(Clone, Copy, Debug, PartialEq, Eq, Structural)]
pub struct Id {
    pub value: u128,
}

/// The number that `uuid::Uuid::parse_str` reads from `text`, if it accepts it.
pub uninterp spec fn parsed_uuid(text: Seq<char>) -> Option<u128>;

/// The hyphenated lower-case text that `uuid` prints for the UUID packing `value`.
pub uninterp spec fn uuid_text(value: u128) -> Seq<char>;

/// The number packed by the name-based (SHA-1) UUID of `name` in the ISO OID
/// namespace.
pub uninterp spec fn name_based_uuid(name: Seq<char>) -> u128;

/// Calls `uuid::Uuid::parse_str` and packs the UUID with `as_u128`.
/// Trusted: the result is the named function of the text alone.
#[verifier::external_body]
fn parse_uuid(text: &str) -> (r: Option<u128>)
    ensures
        r == parsed_uuid(text@),
{
    match uuid::Uuid::parse_str(text) {
        Ok(u) => Some(u.as_u128()),
        Err(_) => None,
    }
}

/// Calls `uuid::Uuid::from_u128` and prints the UUID with its `Display`.
/// Trusted: the text is the named function of the number, and
/// `parse_str` reads every text that the crate prints back to the same UUID.
#[verifier::external_body]
fn print_uuid(value: u128) -> (r: String)
    ensures
        r@ == uuid_text(value),
        parsed_uuid(r@) == Some(value),
{
    uuid::Uuid::from_u128(value).to_string()
}

/// The number packs a UUID of version 4 in the RFC variant: the version
/// digit is 4, and the two highest bits of the variant digit are 1 and 0.
/// The other 122 bits are free.
pub open spec fn is_random_uuid(value: u128) -> bool {
    value & 0x0000_0000_0000_f000_c000_0000_0000_0000 == 0x0000_0000_0000_4000_8000_0000_0000_0000
}

/// Calls `uuid::Uuid::new_v4` and packs the UUID with `as_u128`.
/// Trusted: the value is random, and of every outcome only this holds:
/// `new_v4` masks the random bits with `0xFFFFFFFFFFFF4FFFBFFFFFFFFFFFFFFF`
/// and sets `0x40008000000000000000`, which fixes version and variant.
#[verifier::external_body]
fn random_uuid() -> (r: u128)
    ensures
        is_random_uuid(r),
{
    uuid::Uuid::new_v4().as_u128()
}

/// Calls `uuid::Uuid::new_v5` with `Uuid::NAMESPACE_OID` and the bytes of `name`.
/// Trusted: the result is the named function of the name alone.
#[verifier::external_body]
fn oid_uuid(name: &str) -> (r: u128)
    ensures
        r == name_based_uuid(name@),
{
    uuid::Uuid::new_v5(&uuid::Uuid::NAMESPACE_OID, name.as_bytes()).as_u128()
}

/// The pair `(a, b)` arranged so that the smaller identity comes first.
pub open spec fn canonical(a: Id, b: Id) -> (Id, Id) {
    if a.value < b.value {
        (a, b)
    } else {
        (b, a)
    }
}

/// The text of the key under which the conversation between two users is
/// known: the two identities in canonical order, joined by an underscore.
pub open spec fn pair_key_text(a: Id, b: Id) -> Seq<char> {
    uuid_text(canonical(a, b).0.value) + seq!['_'] + uuid_text(canonical(a, b).1.value)
}

impl Id {
    /// Reads an identity from its text form.
    pub fn parse(text: &str) -> (r: Option<Id>)
        ensures
            r == match parsed_uuid(text@) {
                Some(v) => Some(Id { value: v }),
                None => None,
            },
    {
        match parse_uuid(text) {
            Some(v) => Some(Id { value: v }),
            None => None,
        }
    }

    /// The hyphenated text form of the identity. Parsing it gives the
    /// identity back.
    pub fn text(&self) -> (r: String)
        ensures
            r@ == uuid_text(self.value),
            parsed_uuid(r@) == Some(self.value),
    {
        print_uuid(self.value)
    }

    /// A fresh random identity: a UUID of version 4, whose other bits are
    /// drawn at random.
    pub fn random() -> (r: Id)
        ensures
            is_random_uuid(r.value),
    {
        Id { value: random_uuid() }
    }

    /// The identity derived from a name: equal names give equal identities.
    pub fn named(name: &str) -> (r: Id)
        ensures
            r.value == name_based_uuid(name@),
    {
        Id { value: oid_uuid(name) }
    }
}

/// Orders an unordered pair of identities: the smaller one first. Both
/// orders of the arguments give the same pair.
pub fn canonical_pair(a: Id, b: Id) -> (pair: (Id, Id))
    ensures
        pair == canonical(a, b),
{
    if a.value < b.value {
        (a, b)
    } else {
        (b, a)
    }
}

/// The canonical pair does not depend on the order of its arguments, holds
/// exactly the two identities, and is strictly ordered unless they are equal.
pub proof fn lemma_canonical_symmetric(a: Id, b: Id)
    ensures
        canonical(a, b) == canonical(b, a),
        canonical(a, b).0.value <= canonical(a, b).1.value,
        a != b ==> canonical(a, b).0.value < canonical(a, b).1.value,
        canonical(a, b) == (a, b) || canonical(a, b) == (b, a),
{
}

/// The identity of the channel on which two users talk directly: derived
/// from the canonical pair, so both users arrive at the same channel.
pub fn direct_channel_id(a: Id, b: Id) -> (r: Id)
    ensures
        r.value == name_based_uuid(pair_key_text(a, b)),
{
    let (lo, hi) = canonical_pair(a, b);
    let mut key = lo.text();
    key.append("_");
    let hi_text = hi.text();
    key.append(hi_text.as_str());
    proof {
        reveal_strlit("_");
        assert("_"@ =~= seq!['_']);
    }
    Id::named(key.as_str())
}
} // verus!
