//! Wall-clock time, as whole seconds since the Unix epoch, and its
//! RFC 3339 text form.

use vstd::prelude::*;

verus! {
/// The RFC 3339 text that the `time` crate prints for the instant `seconds`
/// after the Unix epoch, where it can represent that instant.
pub uninterp spec fn rfc3339_text(seconds: i64) -> Option<Seq<char>>;

/// Calls `time::OffsetDateTime::now_utc` and takes its `unix_timestamp`.
/// The value is the machine's clock: nothing is claimed of it.
#[verifier::external_body]
pub(crate) fn now_utc() -> i64 {
    time::OffsetDateTime::now_utc().unix_timestamp()
}

/// Calls `chrono::Utc::now` and takes its `timestamp`.
/// The value is the machine's clock: nothing is claimed of it.
#[verifier::external_body]
pub(crate) fn utc_timestamp() -> i64 {
    chrono::Utc::now().timestamp()
}

/// Calls `time::OffsetDateTime::from_unix_timestamp` and formats the instant
/// with `time::format_description::well_known::Rfc3339`.
/// Trusted: the text is the named function of the seconds alone.
#[verifier::external_body]
fn format_rfc3339(seconds: i64) -> (r: Option<String>)
    ensures
        r is Some <==> rfc3339_text(seconds) is Some,
        r matches Some(s) ==> Some(s@) == rfc3339_text(seconds),
{
    match time::OffsetDateTime::from_unix_timestamp(seconds) {
        Ok(t) => t.format(&time::format_description::well_known::Rfc3339).ok(),
        Err(_) => None,
    }
}

/// The RFC 3339 text of an instant, or `None` where the instant lies outside
/// the years that the format can express.
pub fn rfc3339(seconds: i64) -> (r: Option<String>)
    ensures
        r is Some <==> rfc3339_text(seconds) is Some,
        r matches Some(s) ==> Some(s@) == rfc3339_text(seconds),
{
    format_rfc3339(seconds)
}
} // verus!
