//! Day numbers. Instants are carried as whole days since the Unix epoch, so
//! every window computation is exact integer arithmetic.

use vstd::prelude::*;

verus! {

/// Largest magnitude a day number can take: `i64::MAX / 86400`, the result
/// of dividing any `i64` second count by the seconds of a day.
pub const MAX_EPOCH_DAY: i64 = 106_751_991_167;

/// A day number is in range.
pub open spec fn day_wf(d: i64) -> bool {
    -MAX_EPOCH_DAY <= d <= MAX_EPOCH_DAY
}

/// Relies on `chrono::Utc::now`: the current instant, reduced to whole days
/// since the Unix epoch. Nothing is assumed of the clock beyond the range
/// that dividing an `i64` second count by 86400 forces. `Utc::now` itself
/// panics when the system clock reads before the Unix epoch — an
/// environmental condition no caller can exclude.
#[verifier::external_body]
pub fn now_epoch_day() -> (d: i64)
    ensures
        day_wf(d),
{
    chrono::Utc::now().timestamp() / 86400
}

} // verus!
