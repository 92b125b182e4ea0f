//! Points in time, and the clock of the machine.

use vstd::prelude::*;

verus! {

/// A point in time, to the nanosecond.
#[derive(Debug, Clone, Copy, PartialEq, Eq, Structural)]
pub struct Timestamp {
    /// Whole seconds since the Unix epoch.
    pub secs: i64,
    /// Nanoseconds since the last whole second.
    pub nanos: u32,
}

/// The point in time that the clock tells, given the seconds and nanoseconds
/// that have passed since the Unix epoch. A clock that stands before the epoch
/// tells the epoch, and one past the range of the seconds the end of that range.
pub open spec fn time_told(passed: Option<(u64, u32)>) -> Timestamp {
    match passed {
        Some((secs, nanos)) => Timestamp {
            secs: if secs <= i64::MAX {
                secs as i64
            } else {
                i64::MAX
            },
            nanos,
        },
        None => Timestamp { secs: 0, nanos: 0 },
    }
}

/// Reads the clock with `std::time::SystemTime::elapsed`, for what has passed
/// since `std::time::UNIX_EPOCH`. Of the reading only this is promised: its
/// nanoseconds make up less than a second.
#[verifier::external_body]
fn passed_since_epoch() -> (r: Option<(u64, u32)>)
    ensures
        r matches Some((_, nanos)) ==> nanos < 1_000_000_000,
{
    std::time::UNIX_EPOCH.elapsed().ok().map(|d| (d.as_secs(), d.subsec_nanos()))
}

impl Timestamp {
    /// The point in time for what has passed since the Unix epoch.
    pub fn from_passed(passed: Option<(u64, u32)>) -> (r: Timestamp)
        ensures
            r == time_told(passed),
    {
        match passed {
            Some((secs, nanos)) => {
                let bound: i64 = i64::MAX;
                if secs <= bound as u64 {
                    Timestamp { secs: secs as i64, nanos }
                } else {
                    Timestamp { secs: bound, nanos }
                }
            },
            None => Timestamp { secs: 0, nanos: 0 },
        }
    }

    /// The point in time that the clock tells now.
    pub fn now() -> (r: Timestamp)
        ensures
            r.secs >= 0,
            r.nanos < 1_000_000_000,
    {
        Timestamp::from_passed(passed_since_epoch())
    }
}

/// A time is the seconds and nanoseconds since the epoch, as far as they can be
/// told; before the epoch it is the epoch.
pub proof fn law_times_are_told_as_they_pass(secs: u64, nanos: u32)
    ensures
        secs <= 0x7FFF_FFFF_FFFF_FFFF ==> time_told(Some((secs, nanos))).secs == secs,
        secs > 0x7FFF_FFFF_FFFF_FFFF ==> time_told(Some((secs, nanos))).secs
            == 0x7FFF_FFFF_FFFF_FFFF,
        time_told(Some((secs, nanos))).nanos == nanos,
        time_told(None).secs == 0 && time_told(None).nanos == 0,
{
}

} // verus!
