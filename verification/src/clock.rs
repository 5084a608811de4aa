//! The single gateway to the wall clock: everything else in the crate works
//! on plain day numbers and second counts.

use vstd::prelude::*;
use crate::time::{Timestamp, MAX_SECS};

verus! {

/// Day count and in-day second count of the present local moment.
///
/// Relies on chrono: `Local::now()` reads the wall clock,
/// `Datelike::num_days_from_ce` counts days with the first of January of
/// year one as day one (bounded by chrono's supported years, well inside a
/// hundred million days either way), and `Timelike::num_seconds_from_midnight`
/// returns a value in `0..86400`.
#[verifier::external_body]
fn now_parts() -> (r: (i32, u32))
    ensures
        -100_000_000 <= r.0 <= 100_000_000,
        r.1 < 86_400,
{
    let now = chrono::Local::now();
    let date = now.date_naive();
    let time = now.time();
    (
        chrono::Datelike::num_days_from_ce(&date),
        chrono::Timelike::num_seconds_from_midnight(&time),
    )
}

/// The present local moment as a timestamp. A clock reading before day zero
/// of the calendar (it cannot occur on a sane clock) clamps to zero.
pub fn now_timestamp() -> (r: Timestamp)
    ensures
        r.wf(),
{
    let (days_ce, secs) = now_parts();
    if days_ce >= 1 {
        let days: u64 = (days_ce - 1) as u64;
        Timestamp { secs: days * 86_400 + secs as u64 }
    } else {
        Timestamp { secs: 0 }
    }
}

/// The present local date as a day number (days since the first of January
/// of year one). A clock reading before that day clamps to zero.
pub fn today_day_number() -> (r: u32)
    ensures
        r <= 100_000_000,
{
    let (days_ce, _) = now_parts();
    if days_ce >= 1 {
        (days_ce - 1) as u32
    } else {
        0
    }
}

} // verus!
