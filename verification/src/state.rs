//! Records of the sync state: which destination commit was written for
//! which source commit, and when.
use vstd::prelude::*;

use std::time::{Duration, SystemTime};

verus! {

/// A single source→destination commit mapping.
#[derive(Debug, Clone, PartialEq, Eq)]
pub struct CommitMapping {
    /// The source commit id this row was produced from.
    pub source_commit: String,
    /// The destination commit id the source was exported to.
    pub destination_commit: String,
    /// Unix epoch seconds when the mapping was recorded.
    pub timestamp: i64,
}

/// A reading of the system clock, carried through unread.
#[verifier::external_type_specification]
#[verifier::external_body]
pub struct ExSystemTime(SystemTime);

/// The current time of the system clock (`SystemTime::now`); nothing is
/// claimed of it.
#[verifier::external_body]
fn system_now() -> SystemTime {
    SystemTime::now()
}

/// The time from the Unix epoch to `t` (`SystemTime::duration_since`),
/// `None` for a time before the epoch; nothing more is claimed.
#[verifier::external_body]
fn since_epoch(t: &SystemTime) -> Option<Duration> {
    match t.duration_since(SystemTime::UNIX_EPOCH) {
        Ok(d) => Some(d),
        Err(_) => None,
    }
}

/// The whole seconds of a span (`Duration::as_secs`); nothing is claimed.
#[verifier::external_body]
fn whole_seconds(d: &Duration) -> u64 {
    d.as_secs()
}

/// A timestamp from the seconds elapsed since the Unix epoch: saturated at
/// `i64::MAX`, and `0` for a clock set before the epoch.
pub fn epoch_seconds(elapsed: Option<u64>) -> (r: i64)
    ensures
        r == match elapsed {
            Some(s) => if s <= i64::MAX as u64 { s as i64 } else { i64::MAX },
            None => 0,
        },
{
    match elapsed {
        Some(s) => if s <= i64::MAX as u64 { s as i64 } else { i64::MAX },
        None => 0,
    }
}

/// The current time as Unix epoch seconds (never negative).
pub fn now() -> (r: i64)
    ensures
        r >= 0,
{
    let t = system_now();
    let elapsed = match since_epoch(&t) {
        Some(d) => Some(whole_seconds(&d)),
        None => None,
    };
    epoch_seconds(elapsed)
}

} // verus!
