//! The two clocks: seconds since the Unix epoch, and points in time to the nanosecond.
use std::time::{SystemTime, UNIX_EPOCH};
use vstd::prelude::*;

verus! {

/// `Utc::now().timestamp()` of the `chrono` crate: the current time in whole seconds since
/// the Unix epoch. Nothing can be said of the value.
#[verifier::external_body]
pub(crate) fn unix_timestamp() -> (seconds: i64) {
    chrono::Utc::now().timestamp()
}

/// `SystemTime::now` of the standard library, as its distance from the Unix epoch in whole
/// seconds and nanoseconds: `Ok` at or after the epoch, `Err` before it. The nanoseconds
/// make up less than a second; nothing else can be said of the value.
#[verifier::external_body]
fn system_time() -> (distance: Result<(u64, u32), (u64, u32)>)
    ensures
        match distance {
            Ok((_, nanos)) => nanos < 1_000_000_000,
            Err((_, nanos)) => nanos < 1_000_000_000,
        },
{
    match SystemTime::now().duration_since(UNIX_EPOCH) {
        Ok(since) => Ok((since.as_secs(), since.subsec_nanos())),
        Err(error) => Err((error.duration().as_secs(), error.duration().subsec_nanos())),
    }
}

/// A point in time: nanoseconds since the Unix epoch, negative before it.
#[derive(Clone, Copy, Debug)]
pub struct Instant {
    pub nanos: i128,
}

impl Instant {
    /// The point that lies the given distance before or after the epoch.
    pub fn from_epoch(distance: Result<(u64, u32), (u64, u32)>) -> (r: Instant)
        ensures
            r.nanos == match distance {
                Ok((seconds, nanos)) => seconds * 1_000_000_000 + nanos,
                Err((seconds, nanos)) => -(seconds * 1_000_000_000 + nanos),
            },
    {
        match distance {
            Ok((seconds, nanos)) => Instant {
                nanos: seconds as i128 * 1_000_000_000 + nanos as i128,
            },
            Err((seconds, nanos)) => Instant {
                nanos: -(seconds as i128 * 1_000_000_000 + nanos as i128),
            },
        }
    }

    /// The current time: less than 2^64 seconds before or after the epoch.
    pub fn now() -> (r: Instant)
        ensures
            -0x1_0000_0000_0000_0000 * 1_000_000_000 < r.nanos,
            r.nanos < 0x1_0000_0000_0000_0000 * 1_000_000_000,
    {
        Instant::from_epoch(system_time())
    }
}

/// Whole seconds since the Unix epoch at the point that lies the given distance before or
/// after it; nothing before it.
pub fn whole_seconds(distance: Result<(u64, u32), (u64, u32)>) -> (r: Option<u64>)
    ensures
        r == match distance {
            Ok((seconds, _)) => Some(seconds),
            Err(_) => None,
        },
{
    match distance {
        Ok((seconds, _)) => Some(seconds),
        Err(_) => None,
    }
}

/// Whole seconds since the Unix epoch now, or nothing while the clock stands before it; the
/// value depends on the clock alone.
pub fn seconds_since_epoch() -> Option<u64> {
    whole_seconds(system_time())
}

} // verus!
