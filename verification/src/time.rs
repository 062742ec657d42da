//! Instants as whole UTC seconds since the epoch, and the bridge between an
//! instant and its RFC3339 text form as kept in the token record on disk.

use vstd::prelude::*;

verus! {

/// Largest instant the token record admits: the last second of year 9999,
/// which keeps the RFC3339 rendering at its fixed twenty-character shape.
pub const MAX_TIMESTAMP: i64 = 253402300799;

/// An instant the token record can hold.
pub open spec fn ts_in_range(t: i64) -> bool {
    0 <= t <= MAX_TIMESTAMP
}

/// The RFC3339 text (seconds precision, `Z` suffix) of the instant `t`
/// seconds after the UTC epoch, e.g. `1970-01-01T00:00:00Z` for `0`.
pub uninterp spec fn rfc3339_of(t: i64) -> Seq<char>;

/// A character that can occur in the RFC3339 rendering of an instant.
pub open spec fn rfc3339_char(c: char) -> bool {
    ('0' <= c && c <= '9') || c == '-' || c == ':' || c == 'T' || c == 'Z'
}

/// The fixed shape of a rendered in-range instant: twenty characters, each a
/// digit or one of `-`, `:`, `T`, `Z`.
pub open spec fn rfc3339_wf(s: Seq<char>) -> bool {
    &&& s.len() == 20
    &&& forall|i: int| 0 <= i < s.len() ==> rfc3339_char(#[trigger] s[i])
}

/// Relies on chrono's `DateTime::from_timestamp` and `to_rfc3339_opts`
/// (seconds precision, `Z` suffix): an in-range UTC instant renders as
/// `YYYY-MM-DDTHH:MM:SSZ`, twenty ASCII characters drawn from digits and
/// `-:TZ`, determined by the instant alone.
#[verifier::external_body]
pub fn format_rfc3339(t: i64) -> (r: String)
    requires
        ts_in_range(t),
    ensures
        r@ == rfc3339_of(t),
        rfc3339_wf(r@),
{
    let dt = chrono::DateTime::from_timestamp(t, 0).expect("instant is in range");
    dt.to_rfc3339_opts(chrono::SecondsFormat::Secs, true)
}

/// Relies on chrono's `DateTime::parse_from_rfc3339` and
/// `DateTime::timestamp`: parsing the canonical rendering of an in-range
/// instant yields that instant back.
#[verifier::external_body]
pub fn parse_rfc3339(s: &str) -> (r: Option<i64>)
    ensures
        forall|t: i64| ts_in_range(t) && s@ == rfc3339_of(t) ==> r == Some(t),
{
    match chrono::DateTime::parse_from_rfc3339(s) {
        Ok(dt) => Some(dt.timestamp()),
        Err(_) => None,
    }
}

/// Relies on chrono's `Utc::now`: the current UTC instant in whole seconds.
/// Nothing is assumed of the clock's reading.
#[verifier::external_body]
pub fn now_seconds() -> (r: i64) {
    chrono::Utc::now().timestamp()
}

} // verus!
