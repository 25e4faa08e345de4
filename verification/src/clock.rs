//! Version stamps taken from the system clock.

use vstd::prelude::*;
use std::time::{SystemTime, UNIX_EPOCH};

verus! {

/// `SystemTime::now().duration_since(UNIX_EPOCH)` as whole nanoseconds, or
/// none when the clock stands before 1970. The result depends on the clock,
/// so nothing is claimed of it.
#[verifier::external_body]
fn nanos_since_epoch() -> (n: Option<u128>) {
    SystemTime::now().duration_since(UNIX_EPOCH).ok().map(|d| d.as_nanos())
}

/// A stamp from a clock reading: the nanoseconds taken modulo 2^64, or 0 when
/// the clock stands before the epoch.
pub fn timestamp_from_nanos(nanos: Option<u128>) -> (t: u64)
    ensures
        t == match nanos {
            Some(n) => n % 0x1_0000_0000_0000_0000,
            None => 0,
        },
{
    match nanos {
        Some(n) => (n % 0x1_0000_0000_0000_0000) as u64,
        None => 0,
    }
}

/// Nanoseconds since the Unix epoch, as a version stamp.
pub fn current_timestamp() -> u64 {
    timestamp_from_nanos(nanos_since_epoch())
}

} // verus!
