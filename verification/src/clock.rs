//! Instants: nanoseconds on a monotonic clock.

use vstd::prelude::*;

verus! {

/// Nanoseconds in a second.
pub const NANOS_PER_SEC: u64 = 1_000_000_000;

/// The time from `earlier` to `now`, zero when `earlier` is later.
pub open spec fn elapsed(earlier: u64, now: u64) -> nat {
    if now >= earlier {
        (now - earlier) as nat
    } else {
        0
    }
}

/// The time from `earlier` to `now`, zero when `earlier` is later.
pub fn since(earlier: u64, now: u64) -> (r: u64)
    ensures
        r == elapsed(earlier, now),
{
    if now >= earlier {
        now - earlier
    } else {
        0
    }
}

/// The time that has gone by takes the clock from the earlier instant to now;
/// a clock that went back shows none.
pub proof fn elapsed_time_leads_to_now(earlier: u64, now: u64, r: u64)
    requires
        call_ensures(since, (earlier, now), r),
    ensures
        earlier <= now ==> earlier + r == now && earlier + elapsed(earlier, now) == now,
        now <= earlier ==> r == 0 && elapsed(earlier, now) == 0,
{
}

} // verus!
