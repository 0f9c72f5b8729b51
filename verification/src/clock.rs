//! Times and intervals. Wall-clock time is Unix time in milliseconds; a
//! monotonic time counts nanoseconds from an arbitrary start.

use vstd::prelude::*;

verus! {

/// A partial batch is sent once its first frame is this old.
pub const FLUSH_INTERVAL_NS: u64 = 100_000_000;

/// A status line is printed this often.
pub const STATUS_INTERVAL_NS: u64 = 1_000_000_000;

/// The link counts as down once no batch has arrived for this long.
pub const LINK_TIMEOUT_NS: u64 = 3_000_000_000;

/// The time from `since` to `now`, zero if `now` comes first.
pub open spec fn elapsed_ns(since: u64, now: u64) -> int {
    if now >= since {
        now - since
    } else {
        0
    }
}

/// The time from `since` to `now`, zero if `now` comes first.
pub fn elapsed(since: u64, now: u64) -> (r: u64)
    ensures
        r == elapsed_ns(since, now),
        since <= now ==> since + r == now,
        now < since ==> r == 0,
{
    now.saturating_sub(since)
}

/// Whether the next status line is due.
pub fn status_due(last_status: u64, now: u64) -> (r: bool)
    ensures
        r <==> elapsed_ns(last_status, now) >= STATUS_INTERVAL_NS,
        r <==> now >= last_status + 1_000_000_000,
{
    elapsed(last_status, now) >= STATUS_INTERVAL_NS
}

/// Whole milliseconds of a time since the Unix epoch, given as seconds and
/// nanoseconds, modulo 2^64.
pub fn unix_ms(secs: u64, subsec_nanos: u32) -> (r: u64)
    ensures
        r == (secs * 1000 + subsec_nanos / 1_000_000) % 0x1_0000_0000_0000_0000,
{
    let millis: u128 = secs as u128 * 1000 + (subsec_nanos / 1_000_000) as u128;
    assert(millis as u64 == millis % 0x1_0000_0000_0000_0000) by (bit_vector);
    millis as u64
}

/// A time and what has elapsed since make up the present; a present that
/// comes first leaves nothing elapsed.
pub proof fn law_elapsed_time_adds_up(since: u64, now: u64)
    ensures
        since <= now ==> since + elapsed_ns(since, now) == now,
        now < since ==> elapsed_ns(since, now) == 0,
{
}

/// A partial batch waits for 100 ms, a status line comes every second, and
/// the link stays up for three seconds without a batch.
pub proof fn law_intervals()
    ensures
        FLUSH_INTERVAL_NS == 100 * 1_000_000,
        STATUS_INTERVAL_NS == 1000 * 1_000_000,
        LINK_TIMEOUT_NS == 3000 * 1_000_000,
{
}

} // verus!
