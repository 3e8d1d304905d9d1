//! What the engine takes from outside itself: the roll of a draw and the
//! identifier of a new record from chance, the present instant from the clock.

use rand::Rng;
use vstd::prelude::*;

verus! {

/// Draws a roll between 1 and `limit`, both included.
///
/// Calls `rand::Rng::gen_range` on the generator of `rand::thread_rng` with
/// the range `1..=limit`. Trusted: the value lies in that range. The call
/// panics on an empty range, which `limit >= 1` excludes; beyond that it
/// fails only where the operating system's generator does.
#[verifier::external_body]
pub(crate) fn random_roll(limit: i128) -> (roll: i128)
    requires
        1 <= limit,
    ensures
        1 <= roll <= limit,
{
    rand::thread_rng().gen_range(1..=limit)
}

/// A new random identifier.
///
/// Calls `uuid::Uuid::new_v4` and reads the result with `Uuid::as_u128`.
/// Nothing is claimed of the value. The call fails only where the operating
/// system's generator does.
#[verifier::external_body]
pub(crate) fn fresh_id() -> (id: u128) {
    uuid::Uuid::new_v4().as_u128()
}

/// An instant of the system clock.
#[verifier::external_type_specification]
#[verifier::external_body]
pub struct ExSystemTime(std::time::SystemTime);

/// The present instant of the system clock.
///
/// Calls `std::time::SystemTime::now`. Nothing is claimed of the instant.
#[verifier::external_body]
pub(crate) fn clock_now() -> (now: std::time::SystemTime) {
    std::time::SystemTime::now()
}

/// The time from the epoch to `at`, or `None` for an instant before the epoch.
///
/// Calls `std::time::SystemTime::duration_since` with `UNIX_EPOCH`. Nothing
/// is claimed of the result.
#[verifier::external_body]
pub(crate) fn since_epoch(at: &std::time::SystemTime) -> (elapsed: Option<std::time::Duration>) {
    at.duration_since(std::time::UNIX_EPOCH).ok()
}

/// The whole seconds of a duration.
///
/// Calls `std::time::Duration::as_secs`. Nothing is claimed of the number.
#[verifier::external_body]
pub(crate) fn whole_seconds(elapsed: &std::time::Duration) -> (secs: u64) {
    elapsed.as_secs()
}

/// The present instant in whole seconds since the epoch: zero for a clock
/// that stands before the epoch, and the largest instant for one that
/// stands beyond it.
pub fn now_secs() -> (now: i64)
    ensures
        now >= 0,
        exists|reading: Option<u64>| now == #[trigger] instant_of(reading),
{
    let reading = match since_epoch(&clock_now()) {
        Some(elapsed) => Some(whole_seconds(&elapsed)),
        None => None,
    };
    instant_from(reading)
}

/// The instant that a reading of the clock stands for. The reading is the
/// whole seconds since the epoch, or `None` for a clock that stands before
/// the epoch, which counts as the epoch; seconds beyond the largest instant
/// count as the largest instant.
pub open spec fn instant_of(reading: Option<u64>) -> i64 {
    match reading {
        Some(secs) => if secs > i64::MAX {
            i64::MAX
        } else {
            secs as i64
        },
        None => 0i64,
    }
}

/// The instant that a reading of the clock stands for.
pub fn instant_from(reading: Option<u64>) -> (now: i64)
    ensures
        now == instant_of(reading),
        now >= 0,
{
    match reading {
        Some(secs) => {
            if secs > i64::MAX as u64 {
                i64::MAX
            } else {
                secs as i64
            }
        },
        None => 0,
    }
}

/// The seconds of a reading of the clock as a machine word: the seconds
/// since the epoch as far as they fit the word, and zero for a clock that
/// stands before the epoch.
pub open spec fn word_of(reading: Option<u64>) -> usize {
    match reading {
        Some(secs) => secs as usize,
        None => 0usize,
    }
}

/// The seconds of a reading of the clock as a machine word.
pub fn word_from(reading: Option<u64>) -> (secs: usize)
    ensures
        secs == word_of(reading),
{
    match reading {
        Some(secs) => secs as usize,
        None => 0,
    }
}

} // verus!
