//! Following the container log with `docker logs -f`: how far back to start and how
//! long to wait before following again.

use vstd::prelude::*;

verus! {

/// How much history each follow asks for, in seconds: the engine drops an idle stream
/// after about thirty seconds, and this covers the gap until the next follow.
pub const HISTORY_SECS: u64 = 35;

/// The wait after a follow that ended normally, in seconds.
pub const QUICK_RECONNECT_SECS: u64 = 1;

/// The first wait after a failed follow, in seconds.
pub const ERROR_BACKOFF_INITIAL_SECS: u64 = 1;

/// The longest wait after failed follows, in seconds.
pub const ERROR_BACKOFF_MAX_SECS: u64 = 60;

/// The `--since` time of a follow that starts at Unix time `now`.
pub fn since_secs(now: u64) -> (r: u64)
    ensures
        r == (if now >= HISTORY_SECS { now - HISTORY_SECS } else { 0 }),
{
    now.saturating_sub(HISTORY_SECS)
}

/// How long to wait before the next follow, and the error backoff after it, once a follow
/// has ended (`ok`) or failed. A normal end waits briefly and resets the backoff; a failure
/// waits the current backoff and doubles it, up to the maximum.
pub fn after_follow(ok: bool, error_backoff: u64) -> (r: (u64, u64))
    ensures
        ok ==> r == (QUICK_RECONNECT_SECS, ERROR_BACKOFF_INITIAL_SECS),
        !ok ==> r.0 == error_backoff && r.1 == (if 2 * error_backoff < ERROR_BACKOFF_MAX_SECS {
            2 * error_backoff
        } else {
            ERROR_BACKOFF_MAX_SECS as int
        }),
{
    if ok {
        (QUICK_RECONNECT_SECS, ERROR_BACKOFF_INITIAL_SECS)
    } else if error_backoff < ERROR_BACKOFF_MAX_SECS / 2 {
        (error_backoff, 2 * error_backoff)
    } else {
        (error_backoff, ERROR_BACKOFF_MAX_SECS)
    }
}

} // verus!
