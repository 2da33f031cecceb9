//! Points in time, and the two calls into `chrono` that the server makes.
use vstd::prelude::*;

verus! {

/// A point in time: whole seconds since the Unix epoch, and the nanoseconds
/// into that second.
#[derive(Debug, Clone, Copy, PartialEq, Eq)]
pub struct Timestamp {
    pub secs: i64,
    pub nanos: u32,
}

/// The RFC 3339 text that `chrono` writes for the UTC instant `secs` seconds
/// and `nanos` nanoseconds after the Unix epoch, or `None` where `chrono` has
/// no such instant.
pub uninterp spec fn rfc3339_text(secs: i64, nanos: u32) -> Option<Seq<char>>;

/// Trusted: `chrono::Utc::now`, taken apart with `DateTime::timestamp` and
/// `DateTime::timestamp_subsec_nanos`. Nothing is claimed about which instant
/// comes back. `Utc::now` builds its result with `DateTime::from_timestamp`
/// and unwraps it, and the two getters return what went in, so the parts
/// always name an instant that `chrono` can build and write again. `Utc::now`
/// panics if the system clock stands before the Unix epoch.
#[verifier::external_body]
fn utc_now() -> (now: Timestamp)
    ensures
        rfc3339_text(now.secs, now.nanos) is Some,
{
    let now = chrono::Utc::now();
    Timestamp { secs: now.timestamp(), nanos: now.timestamp_subsec_nanos() }
}

/// Trusted: `chrono::DateTime::<Utc>::to_rfc3339`, on the instant that
/// `DateTime::from_timestamp` builds from the parts. The text depends on the
/// two numbers alone. `None` comes back exactly where `from_timestamp`
/// refuses the parts.
#[verifier::external_body]
fn utc_rfc3339(secs: i64, nanos: u32) -> (text: Option<String>)
    ensures
        text.deep_view() == rfc3339_text(secs, nanos),
{
    match chrono::DateTime::from_timestamp(secs, nanos) {
        Some(instant) => Some(instant.to_rfc3339()),
        None => None,
    }
}

impl Timestamp {
    /// The current time in UTC.
    pub fn now() -> (now: Timestamp)
        ensures
            rfc3339_text(now.secs, now.nanos) is Some,
    {
        utc_now()
    }

    /// This instant in RFC 3339 form, such as `1996-12-19T16:39:57+00:00`;
    /// `None` if the parts name no instant.
    pub fn to_rfc3339(&self) -> (text: Option<String>)
        ensures
            text.deep_view() == rfc3339_text(self.secs, self.nanos),
    {
        utc_rfc3339(self.secs, self.nanos)
    }
}

} // verus!
