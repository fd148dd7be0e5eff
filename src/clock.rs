//! The wall clock.
use vstd::prelude::*;

verus! {

/// Relies on chrono's `From<SystemTime> for DateTime<Utc>` and
/// `DateTime::timestamp`: the system clock's current reading in whole seconds
/// since the Unix epoch, negative for a reading before it. The conversion
/// fails only outside chrono's range of about 262,000 years around the epoch,
/// which a system clock does not reach. Nothing is promised of the value.
#[verifier::external_body]
fn clock_reading() -> (r: i64) {
    chrono::DateTime::<chrono::Utc>::from(std::time::SystemTime::now()).timestamp()
}

/// The timestamp recorded for a clock reading of `reading` seconds since the
/// Unix epoch: the reading itself, or zero for a reading before the epoch.
pub fn seconds_since_epoch(reading: i64) -> (r: u64)
    ensures
        reading < 0 ==> r == 0,
        reading >= 0 ==> r == reading as u64,
{
    if reading < 0 {
        0
    } else {
        reading as u64
    }
}

/// The current time in seconds since the Unix epoch; zero if the clock reads
/// before it.
pub fn get_current_timestamp() -> (r: u64)
    ensures
        r <= i64::MAX as u64,
{
    let reading = clock_reading();
    seconds_since_epoch(reading)
}

} // verus!
