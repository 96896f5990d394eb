//! Reading the local wall clock, the one place the library asks the
//! outside world for a value.

use vstd::prelude::*;
use crate::timestamp::Timestamp;

verus! {

/// Relies on chrono::Local::now and chrono's Datelike/Timelike accessors:
/// month() is 1 to 12, day() is 1 to 31, hour() is 0 to 23, minute() and
/// second() are 0 to 59 (leap seconds live in the sub-second part). The
/// year is unconstrained.
#[verifier::external_body]
fn local_clock_parts() -> (r: (i32, u32, u32, u32, u32, u32))
    ensures
        1 <= r.1 <= 12,
        1 <= r.2 <= 31,
        r.3 <= 23,
        r.4 <= 59,
        r.5 <= 59,
{
    let now = chrono::Local::now();
    (
        chrono::Datelike::year(&now),
        chrono::Datelike::month(&now),
        chrono::Datelike::day(&now),
        chrono::Timelike::hour(&now),
        chrono::Timelike::minute(&now),
        chrono::Timelike::second(&now),
    )
}

/// Read the local wall clock as a timestamp. `None` only when the clock's
/// year does not fit the four-digit log format.
pub fn current_timestamp() -> (r: Option<Timestamp>)
    ensures
        r matches Some(ts) ==> ts.wf(),
{
    let (year, month, day, hour, minute, second) = local_clock_parts();
    Timestamp::new(
        year as i64,
        month as i64,
        day as i64,
        hour as i64,
        minute as i64,
        second as i64,
    )
}

} // verus!
