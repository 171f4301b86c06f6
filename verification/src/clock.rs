//! The wall clock that command blocks are stamped with.

use std::time::{Duration, SystemTime, SystemTimeError};

use vstd::prelude::*;

pub mod laws;

verus! {

/// A moment of the system clock; only carried.
#[verifier::external_type_specification]
#[verifier::external_body]
pub struct ExSystemTime(SystemTime);

/// How far a moment lies before another; only carried.
#[verifier::external_type_specification]
#[verifier::external_body]
pub struct ExSystemTimeError(SystemTimeError);

/// [`SystemTime::now`] reads the system clock. Nothing is claimed of it.
pub assume_specification[ SystemTime::now ]() -> (t: SystemTime)
;

/// [`Duration::as_millis`]: the whole milliseconds of a duration. A duration
/// is only carried here, so nothing is claimed of the number.
pub assume_specification[ Duration::as_millis ](d: &Duration) -> (ms: u128)
;

/// [`SystemTime::duration_since`] with the Unix epoch as the earlier moment.
/// Which moment `t` is comes from the clock, so nothing is claimed.
#[verifier::external_body]
fn since_epoch(t: SystemTime) -> (r: Result<Duration, SystemTimeError>) {
    t.duration_since(std::time::UNIX_EPOCH)
}

/// The stamp for a moment so many milliseconds after the Unix epoch, or for one
/// before it.
pub open spec fn stamp_of(since_epoch: Option<u128>) -> u64 {
    match since_epoch {
        Some(ms) => (ms % 0x1_0000_0000_0000_0000) as u64,
        None => 0,
    }
}

/// The stamp of a moment: its milliseconds since the Unix epoch, of which 64
/// bits are kept, and 0 for a moment before it.
pub fn stamp(since_epoch: Option<u128>) -> (ms: u64)
    ensures
        ms == stamp_of(since_epoch),
{
    match since_epoch {
        Some(ms) => {
            assert(ms as u64 == (ms % 0x1_0000_0000_0000_0000) as u64) by (bit_vector);
            #[verifier::truncate]
            (ms as u64)
        },
        None => 0,
    }
}

/// The stamp of this moment. Which number it is depends on the clock alone.
pub(crate) fn now_ms() -> u64 {
    match since_epoch(SystemTime::now()) {
        Ok(d) => stamp(Some(d.as_millis())),
        Err(_) => stamp(None),
    }
}

} // verus!
