//! Wall-clock readings and RFC 3339 timestamps, by way of `chrono`.

use chrono::{DateTime, Utc};
use vstd::prelude::*;

verus! {

/// The whole seconds that lie between two timestamps, from `earlier` to
/// `later`, rounded toward zero and negative where `later` comes first;
/// `None` where either text cannot be read as a date and time with an offset.
pub uninterp spec fn seconds_between(later: Seq<char>, earlier: Seq<char>) -> Option<int>;

/// Trusted: `Utc::now().to_rfc3339()`. The reading depends on the clock, so
/// nothing is promised about it. `chrono` panics if the clock reads a time
/// before 1970.
#[verifier::external_body]
pub(crate) fn now_rfc3339() -> (stamp: String) {
    Utc::now().to_rfc3339()
}

/// Trusted: `Utc::now().timestamp_millis()`, milliseconds since the Unix
/// epoch. The reading depends on the clock, so nothing is promised about it.
/// `chrono` panics if the clock reads a time before 1970.
#[verifier::external_body]
pub(crate) fn now_millis() -> (millis: u64) {
    Utc::now().timestamp_millis() as u64
}

/// Trusted: `DateTime::parse_from_str` with the format `%+` on both texts,
/// then the difference of the two date-times and its `num_seconds`. The
/// result depends on the two texts alone.
#[verifier::external_body]
pub(crate) fn timestamps_apart(later: &str, earlier: &str) -> (seconds: Option<i64>)
    ensures
        match seconds {
            Some(s) => seconds_between(later@, earlier@) == Some(s as int),
            None => seconds_between(later@, earlier@) is None,
        },
{
    match (DateTime::parse_from_str(later, "%+"), DateTime::parse_from_str(earlier, "%+")) {
        (Ok(a), Ok(b)) => Some((a - b).num_seconds()),
        _ => None,
    }
}

} // verus!
