//! Retention: which observations and screenshots the periodic sweep
//! removes.
use vstd::prelude::*;

use crate::text::{chars_of, ends_with, has_prefix, has_suffix, starts_with};

verus! {

/// Observations older than this many seconds are removed.
pub const RETENTION_SECS: u64 = 86400;

/// Screenshots older than this many seconds are removed.
pub const SCREENSHOT_RETENTION_SECS: u64 = 86400;

/// Seconds between sweeps.
pub const CLEANUP_INTERVAL_SECS: u64 = 28800;

/// Pages freed per incremental vacuum after a sweep that removed rows.
pub const VACUUM_PAGES: u32 = 200;

/// The timestamp before which observations are removed, for a clock at
/// `now_secs` seconds and `now_nanos` nanoseconds since the epoch: the
/// retention window earlier, or zero when the clock is within it, in
/// nanoseconds kept to 64 bits.
pub open spec fn spec_cleanup_cutoff(now_secs: u64, now_nanos: u32) -> u64 {
    if now_secs < RETENTION_SECS {
        0
    } else {
        (((now_secs - RETENTION_SECS) as int) * 1_000_000_000 + now_nanos) as u64
    }
}

/// The timestamp before which observations are removed.
pub fn cleanup_cutoff(now_secs: u64, now_nanos: u32) -> (r: u64)
    requires
        now_nanos < 1_000_000_000,
    ensures
        r == spec_cleanup_cutoff(now_secs, now_nanos),
{
    if now_secs < RETENTION_SECS {
        return 0;
    }
    let secs: u128 = (now_secs - RETENTION_SECS) as u128;
    assert(secs * 1_000_000_000 <= 0xffff_ffff_ffff_ffff * 1_000_000_000) by (nonlinear_arith)
        requires
            secs <= 0xffff_ffff_ffff_ffff,
    ;
    let total: u128 = secs * 1_000_000_000 + now_nanos as u128;
    #[verifier::truncate] (total as u64)
}

/// Whether a sweep that removed `deleted` rows also vacuums.
pub fn vacuum_after(deleted: u64) -> (r: bool)
    ensures
        r == (deleted > 0),
{
    deleted > 0
}

/// A file the daemon wrote as a screenshot:
/// `daemon8-screenshot-*.png`.
pub open spec fn spec_is_screenshot_name(name: Seq<char>) -> bool {
    starts_with(name, "daemon8-screenshot-"@) && ends_with(name, ".png"@)
}

/// Whether a file name is one of the daemon's screenshots.
pub fn is_screenshot_name(name: &str) -> (r: bool)
    ensures
        r == spec_is_screenshot_name(name@),
{
    let n = chars_of(name);
    let p = chars_of("daemon8-screenshot-");
    let s = chars_of(".png");
    has_prefix(n.as_slice(), p.as_slice()) && has_suffix(n.as_slice(), s.as_slice())
}

/// A screenshot whose age is `age_secs` seconds and `age_nanos`
/// nanoseconds is past retention (an age that cannot be read counts as
/// zero).
pub fn screenshot_expired(age: Option<(u64, u32)>) -> (r: bool)
    ensures
        r == match age {
            Some((s, n)) => s > SCREENSHOT_RETENTION_SECS || (s == SCREENSHOT_RETENTION_SECS && n
                > 0),
            None => false,
        },
{
    match age {
        Some((s, n)) => s > SCREENSHOT_RETENTION_SECS || (s == SCREENSHOT_RETENTION_SECS && n > 0),
        None => false,
    }
}

} // verus!
verus! {

/// The cutoff is the clock moved back by the retention window: once the
/// clock is past the window, adding the window to the cutoff gives the
/// current time in nanoseconds, so an observation stamped within the last
/// `RETENTION_SECS` seconds is at or after the cutoff and survives the
/// sweep, and one stamped earlier than that is before it.
pub proof fn lemma_cutoff_is_retention_before_now(now_secs: u64, now_nanos: u32, ts: u64)
    requires
        now_secs >= RETENTION_SECS,
        now_nanos < 1_000_000_000,
        now_secs as int * 1_000_000_000 + now_nanos <= u64::MAX,
    ensures
        spec_cleanup_cutoff(now_secs, now_nanos) + RETENTION_SECS as int * 1_000_000_000
            == now_secs as int * 1_000_000_000 + now_nanos,
        now_secs as int * 1_000_000_000 + now_nanos - ts < RETENTION_SECS as int * 1_000_000_000
            ==> ts >= spec_cleanup_cutoff(now_secs, now_nanos),
        now_secs as int * 1_000_000_000 + now_nanos - ts > RETENTION_SECS as int * 1_000_000_000
            ==> ts < spec_cleanup_cutoff(now_secs, now_nanos),
{
    let v: int = ((now_secs - RETENTION_SECS) as int) * 1_000_000_000 + now_nanos;
    assert(v == now_secs as int * 1_000_000_000 + now_nanos - RETENTION_SECS as int * 1_000_000_000)
        by (nonlinear_arith)
        requires
            v == ((now_secs - RETENTION_SECS) as int) * 1_000_000_000 + now_nanos,
            now_secs >= RETENTION_SECS,
    ;
    assert(0 <= v <= u64::MAX);
}

} // verus!
