//! The calendar year by the system clock.
use vstd::prelude::*;

verus! {

/// The year that `secs` seconds after the Unix epoch falls in, counting a
/// year as 31556926 seconds (truncated to `i32`).
pub open spec fn year_at(secs: u64) -> i32 {
    (1970 + secs / 31556926) as i32
}

/// Reads `SystemTime::now` as whole seconds since the Unix epoch (0 when the
/// clock stands before it). Nothing is promised of the value: it is the time.
#[verifier::external_body]
fn unix_seconds() -> u64 {
    std::time::SystemTime::now().duration_since(std::time::UNIX_EPOCH).unwrap_or_default().as_secs()
}

/// The year that `secs` seconds after the Unix epoch falls in.
pub fn year_from_seconds(secs: u64) -> (y: i32)
    ensures
        y == year_at(secs),
{
    let y = (#[verifier::truncate] ((1970 + secs / 31556926) as i32));
    y
}

/// The current year by the system clock.
pub fn get_current_year() -> (y: i32)
    ensures
        exists|secs: u64| y == year_at(secs),
{
    let secs = unix_seconds();
    year_from_seconds(secs)
}

} // verus!
