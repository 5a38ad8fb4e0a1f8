//! Conversions between epoch-second timestamps and the RFC 3339 text used
//! by the persisted index and the remote protocol: second precision with a
//! literal `Z` suffix, e.g. `2024-01-01T12:00:00Z`.

use vstd::prelude::*;

verus! {

/// The RFC 3339 rendering of an epoch-second timestamp. What chrono
/// renders is a function of the timestamp alone, so the result carries a
/// name rather than a definition.
pub uninterp spec fn rfc3339_utc_of(ts: int) -> Seq<char>;

/// The timestamp an RFC 3339 string denotes, if it parses: a function of
/// the characters alone.
pub uninterp spec fn ts_of_rfc3339(s: Seq<char>) -> Option<int>;

/// Relies on chrono's `DateTime::<Utc>::from_timestamp` and `format`:
/// renders the timestamp as `%Y-%m-%dT%H:%M:%SZ`. `None` only for
/// timestamps outside chrono's representable range of years.
#[verifier::external_body]
pub fn format_timestamp(ts: i64) -> (r: Option<String>)
    ensures
        r matches Some(s) ==> s@ == rfc3339_utc_of(ts as int),
{
    chrono::DateTime::<chrono::Utc>::from_timestamp(ts, 0).map(
        |dt| dt.format("%Y-%m-%dT%H:%M:%SZ").to_string(),
    )
}

/// Relies on chrono's `DateTime::parse_from_rfc3339` and `timestamp`: the
/// epoch seconds an RFC 3339 string denotes, `None` when it does not
/// parse. A function of the characters alone.
#[verifier::external_body]
pub fn parse_timestamp(s: &str) -> (r: Option<i64>)
    ensures
        match r {
            Option::Some(t) => ts_of_rfc3339(s@) == Option::Some(t as int),
            Option::None => ts_of_rfc3339(s@) is None,
        },
{
    chrono::DateTime::parse_from_rfc3339(s).ok().map(|dt| dt.timestamp())
}

/// Relies on chrono's `Utc::now`: the clock's current moment as epoch
/// seconds. Nothing can be promised of a clock reading.
#[verifier::external_body]
pub fn now_timestamp() -> i64 {
    chrono::Utc::now().timestamp()
}

} // verus!
