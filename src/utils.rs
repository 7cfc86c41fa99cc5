//! Wall-clock timing in milliseconds.
use vstd::prelude::*;

verus! {

#[verifier::external_type_specification]
#[verifier::external_body]
pub struct ExSystemTime(std::time::SystemTime);

/// Relies on std's `SystemTime::now`: the clock's current reading, about
/// which nothing is stated.
#[verifier::external_body]
fn clock_now() -> (r: std::time::SystemTime) {
    std::time::SystemTime::now()
}

/// Relies on std's `SystemTime::duration_since`, from the Unix epoch: `None`
/// when `t` reads earlier than the epoch.
#[verifier::external_body]
fn since_epoch(t: &std::time::SystemTime) -> (r: Option<core::time::Duration>) {
    t.duration_since(std::time::UNIX_EPOCH).ok()
}

/// Relies on std's `Duration::as_millis`: the whole milliseconds in `d`.
#[verifier::external_body]
fn whole_millis(d: &core::time::Duration) -> (r: u128) {
    d.as_millis()
}

/// The current time in milliseconds since the Unix epoch. A clock that reads
/// before the epoch gives 0, and one past `u64::MAX` milliseconds gives
/// `u64::MAX`.
pub fn get_time() -> (r: u64) {
    match since_epoch(&clock_now()) {
        Some(d) => {
            let ms = whole_millis(&d);
            if ms > u64::MAX as u128 {
                u64::MAX
            } else {
                ms as u64
            }
        },
        None => 0,
    }
}

/// Milliseconds from `start` to `end`; zero when `end` is earlier.
pub fn millis_between(start: u64, end: u64) -> (r: u64)
    ensures
        r == if end >= start {
            end - start
        } else {
            0
        },
{
    if end >= start {
        end - start
    } else {
        0
    }
}

/// Milliseconds since `start`, a value of `get_time`; zero when the clock
/// now reads earlier than `start`.
pub fn elapsed(start: u64) -> (r: u64)
    ensures
        r <= u64::MAX - start,
{
    let end = get_time();
    millis_between(start, end)
}

} // verus!
