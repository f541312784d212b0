//! The throttling policy shared by the download and upload engines: a fixed
//! minimum wall-clock interval between emitted progress events, with the
//! first and the final event of a transfer always delivered.

use vstd::prelude::*;

verus! {

/// The milliseconds elapsed from `last_emit_ms` to `now_ms`, or 0 if the
/// clock moved backwards.
pub open spec fn elapsed_since(now_ms: u64, last_emit_ms: u64) -> int {
    if now_ms >= last_emit_ms {
        now_ms - last_emit_ms
    } else {
        0
    }
}

/// Whether a progress event may be emitted now.
///
/// The first and the final event of a transfer are never throttled; any
/// other event is emitted only when at least `interval_ms` milliseconds have
/// passed since the last emitted event.
pub fn should_emit(first: bool, last: bool, now_ms: u64, last_emit_ms: u64, interval_ms: u64) -> (r:
    bool)
    ensures
        r == (first || last || elapsed_since(now_ms, last_emit_ms) >= interval_ms),
{
    first || last || now_ms.saturating_sub(last_emit_ms) >= interval_ms
}

/// The transfer speed in bytes per second over the window since the last
/// emitted event, clamped to 0 when no time has passed and to `u64::MAX`
/// when the quotient does not fit.
pub fn speed_bps(downloaded: u64, last_emit_bytes: u64, elapsed_ms: u64) -> (r: u64)
    ensures
        elapsed_ms == 0 ==> r == 0,
        downloaded < last_emit_bytes ==> r == 0,
        elapsed_ms > 0 && downloaded >= last_emit_bytes ==> r == (((downloaded - last_emit_bytes)
            * 1000) / (elapsed_ms as int)) as u64 || (r == u64::MAX && ((downloaded
            - last_emit_bytes) * 1000) / (elapsed_ms as int) >= u64::MAX),
{
    if elapsed_ms == 0 || downloaded < last_emit_bytes {
        return 0;
    }
    let delta: u128 = (downloaded - last_emit_bytes) as u128;
    let q: u128 = (delta * 1000) / (elapsed_ms as u128);
    if q > u64::MAX as u128 {
        u64::MAX
    } else {
        q as u64
    }
}

} // verus!
