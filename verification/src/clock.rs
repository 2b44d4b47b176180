//! Instants, whole-unit spans between them, and the system clock.
use vstd::prelude::*;

use crate::types::{valid_instant, MAX_INSTANT, MIN_INSTANT, SECS_PER_DAY};

verus! {

/// `a / b` rounded toward zero (`b > 0`), as integer division does in Rust.
pub open spec fn trunc_div(a: int, b: int) -> int {
    if a >= 0 {
        a / b
    } else {
        -((-a) / b)
    }
}

/// Whole minutes in a span of `secs` seconds, rounded toward zero.
pub open spec fn whole_minutes(secs: int) -> int {
    trunc_div(secs, 60)
}

/// Whole days in a span of `secs` seconds, rounded toward zero.
pub open spec fn whole_days(secs: int) -> int {
    trunc_div(secs, 86400)
}

/// A reading of the clock: whole seconds since the epoch and the nanoseconds
/// past them.
#[derive(Debug, Clone, Copy, PartialEq, Eq, Structural)]
pub struct Instant {
    pub secs: i64,
    pub nanos: u32,
}

impl Instant {
    /// The instant `secs` seconds after the epoch, with no fraction.
    pub fn at(secs: i64) -> (i: Instant)
        ensures
            i.secs == secs,
            i.nanos == 0,
    {
        Instant { secs, nanos: 0 }
    }
}

/// The seconds lie in chrono's range and the nanoseconds below a second.
pub open spec fn valid_now(now: Instant) -> bool {
    valid_instant(now.secs) && now.nanos < 1_000_000_000
}

/// Whole seconds from instant `t` to `now`, rounded toward zero, as chrono's
/// `TimeDelta::num_seconds` gives them for `now - t`.
pub open spec fn seconds_since(now: Instant, t: i64) -> int {
    let d = now.secs - t;
    if d < 0 && now.nanos > 0 {
        d + 1
    } else {
        d
    }
}

/// First whole second at or after the instant `lookback_days` days before
/// `now`: a record at whole second `t` lies in the window exactly when
/// `t >= window_start(now, lookback_days)`.
pub open spec fn window_start(now: Instant, lookback_days: u32) -> int {
    now.secs - lookback_days * 86400 + if now.nanos > 0 {
        1int
    } else {
        0int
    }
}

/// The instant `lookback_days` days before `now` can be held by chrono (it
/// panics computing `now - Duration::days(lookback_days)` otherwise).
pub open spec fn window_in_range(now: Instant, lookback_days: u32) -> bool {
    now.secs - lookback_days * 86400 >= MIN_INSTANT
}

/// Bound on the magnitude of whole minutes between two valid instants.
pub open spec fn max_span_minutes() -> int {
    300_000_000_000
}

/// Whole minutes from `earlier` to `later`, rounded toward zero.
pub fn minutes_between(later: i64, earlier: i64) -> (m: i64)
    requires
        valid_instant(later),
        valid_instant(earlier),
    ensures
        m == whole_minutes(later - earlier),
        -max_span_minutes() <= m <= max_span_minutes(),
{
    let d = later - earlier;
    if d >= 0 {
        d / 60
    } else {
        -((-d) / 60)
    }
}

/// Whole days from `earlier` to `later`, rounded toward zero.
pub fn days_between(later: i64, earlier: i64) -> (n: i64)
    requires
        valid_instant(later),
        valid_instant(earlier),
    ensures
        n == whole_days(later - earlier),
{
    let d = later - earlier;
    if d >= 0 {
        d / SECS_PER_DAY
    } else {
        -((-d) / SECS_PER_DAY)
    }
}

/// Whole days from instant `t` to `now`, rounded toward zero, as chrono's
/// `TimeDelta::num_days` gives them for `now - t`.
pub fn age_in_days(now: Instant, t: i64) -> (n: i64)
    requires
        valid_now(now),
        valid_instant(t),
    ensures
        n == whole_days(seconds_since(now, t)),
{
    let mut d = now.secs - t;
    if d < 0 && now.nanos > 0 {
        d = d + 1;
    }
    if d >= 0 {
        d / SECS_PER_DAY
    } else {
        -((-d) / SECS_PER_DAY)
    }
}

/// Start of the window of `lookback_days` days ending at `now`; `None` when
/// the instant `lookback_days` days before `now` falls before the earliest
/// instant chrono can represent (where chrono's `DateTime - Duration` panics).
pub fn window_start_checked(now: Instant, lookback_days: u32) -> (s: Option<i64>)
    requires
        valid_now(now),
    ensures
        s matches Some(v) ==> v == window_start(now, lookback_days) && MIN_INSTANT <= v
            <= MAX_INSTANT + 1,
        s is None <==> !window_in_range(now, lookback_days),
{
    let back: i64 = lookback_days as i64 * SECS_PER_DAY;
    let floor = now.secs - back;
    if floor < MIN_INSTANT {
        None
    } else if now.nanos > 0 {
        Some(floor + 1)
    } else {
        Some(floor)
    }
}

/// The current time, read from `chrono::Utc::now`: its whole seconds since the
/// epoch (`DateTime::timestamp`) and the nanoseconds past them
/// (`DateTime::timestamp_subsec_nanos`).  chrono's `Utc::now` panics when the
/// system clock reads before the Unix epoch or past what `DateTime<Utc>` can
/// hold, so the seconds that come back lie in `0..=MAX_INSTANT`; the
/// nanoseconds are those of a `std::time::Duration` since the epoch, below a
/// second.  Nothing else is stated of it: it is whatever the system clock says.
#[verifier::external_body]
fn system_now() -> (t: Instant)
    ensures
        0 <= t.secs <= MAX_INSTANT,
        t.nanos < 1_000_000_000,
{
    let now = chrono::Utc::now();
    Instant { secs: now.timestamp(), nanos: now.timestamp_subsec_nanos() }
}

/// The current time.
pub fn current_instant() -> (t: Instant)
    ensures
        0 <= t.secs <= MAX_INSTANT,
        valid_now(t),
{
    system_now()
}

/// The current time in whole seconds since the epoch.
pub fn now_seconds() -> (t: i64)
    ensures
        0 <= t <= MAX_INSTANT,
        valid_instant(t),
{
    current_instant().secs
}

} // verus!
