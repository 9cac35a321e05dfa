//! The retry policy for a busy database.
use vstd::prelude::*;

verus! {

/// How many times an operation is retried while the database is busy, before the
/// last attempt whose error is passed on.
pub const MAX_BUSY_RETRIES: u64 = 5;

/// The pause before retrying after the `attempt`-th busy answer (counted from zero):
/// 300 ms more for each attempt.
pub fn busy_retry_delay_ms(attempt: u64) -> (r: u64)
    requires
        attempt < MAX_BUSY_RETRIES,
    ensures
        r == 300 * (attempt + 1),
{
    300 * (attempt + 1)
}

} // verus!
