//! Summaries of measured values: medians, DORA bands, daily histories and rates.
use vstd::prelude::*;
use vstd::relations::sorted_by;

use crate::clock::{max_span_minutes, whole_days};
use crate::seqs::{count_where, gather, lemma_count_where_le, lemma_count_where_step, lemma_gather_step};
use crate::sorting::{ascending, lemma_ascending, lemma_sorted_le, leq_i64, sort_ascending};
use crate::types::{
    valid_instant, DoraLevel, DurationMetric, FrequencyMetric, Ratio, RateMetric, WorkflowRun,
};
use crate::clock::{age_in_days, seconds_since, valid_now, Instant};

verus! {

broadcast use vstd::seq_lib::group_to_multiset_ensures;

// ── Medians ──────────────────────────────────────────────────────────────────
/// Twice the median of an ascending sequence (0 when empty): the middle value,
/// or the sum of the two middle values when the length is even.
pub open spec fn median_x2(s: Seq<i64>) -> int {
    let n = s.len() as int;
    if n == 0 {
        0
    } else if n % 2 == 0 {
        s[n / 2 - 1] + s[n / 2]
    } else {
        2 * s[n / 2]
    }
}

/// Every element lies within `bound` of zero.
pub open spec fn bounded_by(s: Seq<i64>, bound: int) -> bool {
    forall|k: int| 0 <= k < s.len() ==> -bound <= #[trigger] s[k] <= bound
}

pub proof fn lemma_ascending_bounded(s: Seq<i64>, bound: int)
    requires
        bounded_by(s, bound),
    ensures
        bounded_by(ascending(s), bound),
{
    lemma_ascending(s);
    let t = ascending(s);
    assert forall|k: int| 0 <= k < t.len() implies -bound <= #[trigger] t[k] <= bound by {
        assert(t.contains(t[k]));
        assert(t.to_multiset().count(t[k]) > 0);
        assert(s.to_multiset().count(t[k]) > 0);
        assert(s.contains(t[k]));
        let i = choose|i: int| 0 <= i < s.len() && s[i] == t[k];
        assert(-bound <= s[i] <= bound);
    }
}

/// The median of two middle values of an ascending sequence lies between its
/// least and greatest elements.
pub proof fn lemma_median_between(s: Seq<i64>)
    requires
        s.len() > 0,
        sorted_by(s, leq_i64()),
    ensures
        2 * s[0] <= median_x2(s) <= 2 * s[s.len() - 1],
{
    let n = s.len() as int;
    if n % 2 == 0 {
        lemma_sorted_le(s, 0, n / 2 - 1);
        lemma_sorted_le(s, 0, n / 2);
        lemma_sorted_le(s, n / 2, n - 1);
        lemma_sorted_le(s, n / 2 - 1, n - 1);
    } else {
        lemma_sorted_le(s, 0, n / 2);
        lemma_sorted_le(s, n / 2, n - 1);
    }
}

/// Twice the median of an ascending vector.
pub fn median_x2_of_sorted(s: &Vec<i64>) -> (m: i64)
    requires
        bounded_by(s@, max_span_minutes() * 4),
    ensures
        m == median_x2(s@),
{
    let n = s.len();
    if n == 0 {
        0
    } else if n % 2 == 0 {
        s[n / 2 - 1] + s[n / 2]
    } else {
        2 * s[n / 2]
    }
}

// ── Bands ────────────────────────────────────────────────────────────────────
/// Band of a duration that is better when shorter: Elite up to `elite`, High up
/// to `high`, Medium up to `medium`, Low beyond.
pub open spec fn band_at_most(x: int, elite: int, high: int, medium: int) -> DoraLevel {
    if x <= elite {
        DoraLevel::Elite
    } else if x <= high {
        DoraLevel::High
    } else if x <= medium {
        DoraLevel::Medium
    } else {
        DoraLevel::Low
    }
}

pub fn band_at_most_exec(x: i64, elite: i64, high: i64, medium: i64) -> (l: DoraLevel)
    ensures
        l == band_at_most(x as int, elite as int, high as int, medium as int),
{
    if x <= elite {
        DoraLevel::Elite
    } else if x <= high {
        DoraLevel::High
    } else if x <= medium {
        DoraLevel::Medium
    } else {
        DoraLevel::Low
    }
}

/// Rank of a band, best first; `NoData` last.
pub open spec fn band_rank(l: DoraLevel) -> int {
    match l {
        DoraLevel::Elite => 0,
        DoraLevel::High => 1,
        DoraLevel::Medium => 2,
        DoraLevel::Low => 3,
        DoraLevel::NoData => 4,
    }
}

/// `m` summarizes the durations `mins` (in minutes): `NoData` with an empty
/// history when there are none; otherwise twice their median, its band under
/// the thresholds (given as twice a number of minutes), and `history` (the
/// daily medians of the window).
pub open spec fn summarizes(
    m: DurationMetric,
    mins: Seq<i64>,
    history: Seq<i64>,
    elite: int,
    high: int,
    medium: int,
) -> bool {
    if mins.len() == 0 {
        &&& m.median_minutes_x2 == 0
        &&& m.level == DoraLevel::NoData
        &&& m.history@ == Seq::<i64>::empty()
    } else {
        &&& m.median_minutes_x2 == median_x2(ascending(mins))
        &&& m.level == band_at_most(median_x2(ascending(mins)), elite, high, medium)
        &&& m.history@ == history
    }
}

/// Summary of durations in minutes, with the daily medians `history`; see
/// `summarizes`.
pub fn summarize_minutes(mins: &Vec<i64>, history: Vec<i64>, elite: i64, high: i64, medium: i64) -> (m:
    DurationMetric)
    requires
        bounded_by(mins@, max_span_minutes()),
    ensures
        summarizes(m, mins@, history@, elite as int, high as int, medium as int),
{
    if mins.len() == 0 {
        return DurationMetric { median_minutes_x2: 0, level: DoraLevel::NoData, history: Vec::new() };
    }
    let sorted = sort_ascending(mins);
    proof {
        lemma_ascending(mins@);
        lemma_ascending_bounded(mins@, max_span_minutes());
    }
    let median = median_x2_of_sorted(&sorted);
    let level = band_at_most_exec(median, elite, high, medium);
    DurationMetric { median_minutes_x2: median, level, history }
}

// ── Daily medians ────────────────────────────────────────────────────────────
/// The durations (second components) of the events whose instant (first
/// component) is `age` whole days before `now`.
pub open spec fn spans_at_age(events: Seq<(i64, i64)>, now: Instant, age: int) -> Seq<i64> {
    gather(events, |e: (i64, i64)| if age_days(now, e.0) == age { Some(e.1) } else { None })
}

/// Twice the median duration of each day of a window of `days` days ending at
/// `now`, oldest day first; 0 for a day without events.  Events are pairs of
/// the instant they ended and their duration.
pub open spec fn daily_medians(events: Seq<(i64, i64)>, now: Instant, days: int) -> Seq<i64> {
    Seq::new(
        days as nat,
        |k: int| median_x2(ascending(spans_at_age(events, now, days - 1 - k))) as i64,
    )
}

/// Events at valid instants with durations within `max_span_minutes`.
pub open spec fn events_ok(events: Seq<(i64, i64)>) -> bool {
    forall|k: int|
        0 <= k < events.len() ==> valid_instant((#[trigger] events[k]).0) && -max_span_minutes()
            <= events[k].1 <= max_span_minutes()
}

fn spans_at_age_of(events: &Vec<(i64, i64)>, now: Instant, age: i64) -> (v: Vec<i64>)
    requires
        valid_now(now),
        events_ok(events@),
    ensures
        v@ == spans_at_age(events@, now, age as int),
        bounded_by(v@, max_span_minutes()),
{
    let ghost f = |e: (i64, i64)| if age_days(now, e.0) == age as int { Some(e.1) } else { None };
    let mut v: Vec<i64> = Vec::new();
    let mut i: usize = 0;
    while i < events.len()
        invariant
            i <= events@.len(),
            valid_now(now),
            events_ok(events@),
            f == (|e: (i64, i64)| if age_days(now, e.0) == age as int { Some(e.1) } else { None }),
            v@ == gather(events@.take(i as int), f),
            bounded_by(v@, max_span_minutes()),
        decreases events@.len() - i,
    {
        let e = events[i];
        proof {
            lemma_gather_step(events@, f, i as int);
            assert(valid_instant(events@[i as int].0));
        }
        if age_in_days(now, e.0) == age {
            v.push(e.1);
        }
        i = i + 1;
    }
    proof {
        assert(events@.take(events@.len() as int) =~= events@);
    }
    v
}

/// Daily medians of `events` over `days` days ending at `now`; see
/// `daily_medians`.
pub fn daily_medians_of(events: &Vec<(i64, i64)>, now: Instant, days: u32) -> (v: Vec<i64>)
    requires
        valid_now(now),
        events_ok(events@),
    ensures
        v@ == daily_medians(events@, now, days as int),
{
    let d = days as usize;
    let mut v: Vec<i64> = Vec::new();
    let mut k: usize = 0;
    while k < d
        invariant
            d == days as usize,
            k <= d,
            valid_now(now),
            events_ok(events@),
            v@ == daily_medians(events@, now, days as int).take(k as int),
        decreases d - k,
    {
        let age = (d - 1 - k) as i64;
        let day = spans_at_age_of(events, now, age);
        let sorted = sort_ascending(&day);
        proof {
            lemma_ascending(day@);
            lemma_ascending_bounded(day@, max_span_minutes());
        }
        let m = median_x2_of_sorted(&sorted);
        proof {
            let full = daily_medians(events@, now, days as int);
            assert(full[k as int] == m);
            assert(full.take(k + 1) =~= full.take(k as int).push(m));
        }
        v.push(m);
        k = k + 1;
    }
    proof {
        let full = daily_medians(events@, now, days as int);
        assert(full.take(d as int) =~= full);
    }
    v
}

// ── Daily histories ──────────────────────────────────────────────────────────
/// Whole days from `t` to `now`.
pub open spec fn age_days(now: Instant, t: i64) -> int {
    whole_days(seconds_since(now, t))
}

/// Number of instants in `stamps` that are `age` whole days before `now`.
pub open spec fn count_at_age(stamps: Seq<i64>, now: Instant, age: int) -> nat {
    count_where(stamps, |t: i64| age_days(now, t) == age)
}

/// Per-day counts over a window of `days` days ending at `now`, oldest day
/// first; instants in the future or older than the window are not counted.
pub open spec fn day_counts(stamps: Seq<i64>, now: Instant, days: int) -> Seq<u64> {
    Seq::new(days as nat, |k: int| count_at_age(stamps, now, days - 1 - k) as u64)
}

/// Band of an event rate `events / window` per day: Elite at one or more a
/// day, High at one or more a week, Medium at one or more in 30 days.
pub open spec fn freq_level(events: int, window: int) -> DoraLevel {
    if events >= window {
        DoraLevel::Elite
    } else if 7 * events >= window {
        DoraLevel::High
    } else if 30 * events >= window {
        DoraLevel::Medium
    } else {
        DoraLevel::Low
    }
}

/// `m` is the frequency of the events at instants `stamps` over a window of
/// `window` days ending at `now`.
pub open spec fn frequency_of(m: FrequencyMetric, stamps: Seq<i64>, window: u32, now: Instant) -> bool {
    &&& m.window_days == window
    &&& if stamps.len() == 0 {
        &&& m.events == 0
        &&& m.level == DoraLevel::NoData
        &&& m.history@ == Seq::<u64>::empty()
    } else {
        &&& m.events == stamps.len()
        &&& m.level == freq_level(stamps.len() as int, window as int)
        &&& m.history@ == day_counts(stamps, now, window as int)
    }
}

/// Frequency of events at `stamps` over `window` days ending at `now`.
pub fn frequency(stamps: &Vec<i64>, window: u32, now: Instant) -> (m: FrequencyMetric)
    requires
        valid_now(now),
        forall|k: int| 0 <= k < stamps@.len() ==> valid_instant(#[trigger] stamps@[k]),
    ensures
        frequency_of(m, stamps@, window, now),
{
    let n = stamps.len();
    if n == 0 {
        return FrequencyMetric { events: 0, window_days: window, level: DoraLevel::NoData, history: Vec::new() };
    }
    let days = window as usize;
    let mut buckets: Vec<u64> = Vec::new();
    let mut k: usize = 0;
    while k < days
        invariant
            k <= days,
            buckets@.len() == k,
            forall|j: int| 0 <= j < k ==> buckets@[j] == 0,
        decreases days - k,
    {
        buckets.push(0);
        k = k + 1;
    }
    let mut i: usize = 0;
    while i < n
        invariant
            n == stamps@.len(),
            days == window as usize,
            i <= n,
            valid_now(now),
            forall|k: int| 0 <= k < stamps@.len() ==> valid_instant(#[trigger] stamps@[k]),
            buckets@.len() == days,
            forall|j: int|
                0 <= j < days ==> #[trigger] buckets@[j] == count_at_age(
                    stamps@.take(i as int),
                    now,
                    days - 1 - j,
                ),
        decreases n - i,
    {
        let t = stamps[i];
        let age = age_in_days(now, t);
        proof {
            assert forall|j: int| 0 <= j < days implies #[trigger] count_at_age(
                stamps@.take(i + 1),
                now,
                days - 1 - j,
            ) == count_at_age(stamps@.take(i as int), now, days - 1 - j) + if age_days(
                now,
                t,
            ) == days - 1 - j {
                1nat
            } else {
                0nat
            } by {
                let target = days - 1 - j;
                lemma_count_where_step(stamps@, |t: i64| age_days(now, t) == target, i as int);
                lemma_count_where_le(stamps@.take(i as int), |t: i64| age_days(now, t) == target);
            }
        }
        if 0 <= age && (age as u64) < (days as u64) {
            let idx = days - 1 - age as usize;
            proof {
                lemma_count_where_le(
                    stamps@.take(i as int),
                    |t: i64| age_days(now, t) == days - 1 - idx,
                );
            }
            let c = buckets[idx];
            buckets.set(idx, c + 1);
        }
        i = i + 1;
    }
    proof {
        assert(stamps@.take(n as int) =~= stamps@);
        assert(buckets@ =~= day_counts(stamps@, now, window as int));
    }
    let level = if n >= days {
        DoraLevel::Elite
    } else if 7 * (n as u64) >= (days as u64) {
        DoraLevel::High
    } else if 30 * (n as u64) >= (days as u64) {
        DoraLevel::Medium
    } else {
        DoraLevel::Low
    };
    FrequencyMetric { events: n, window_days: window, level, history: buckets }
}

// ── Rates ────────────────────────────────────────────────────────────────────
/// `num / den` as a fraction, or `empty` when `den` is 0.
pub open spec fn fraction_or(num: nat, den: nat, empty: Ratio) -> Ratio {
    if den == 0 {
        empty
    } else {
        Ratio { num: num as usize, den: den as usize }
    }
}

/// Band of a change failure rate `fails / total`: Elite up to 5 %, High up to
/// 10 %, Medium up to 15 %, Low beyond.
pub open spec fn cfr_level(fails: int, total: int) -> DoraLevel {
    if 20 * fails <= total {
        DoraLevel::Elite
    } else if 10 * fails <= total {
        DoraLevel::High
    } else if 20 * fails <= 3 * total {
        DoraLevel::Medium
    } else {
        DoraLevel::Low
    }
}

/// `m` is the change failure rate of `failures` failed and `successes`
/// successful deployments: `NoData` with an empty history when there are
/// none; otherwise their rate, its band, and `history` (the daily rates of the
/// window).
pub open spec fn failure_rate_of(m: RateMetric, successes: nat, failures: nat, history: Seq<Ratio>) -> bool {
    let total = successes + failures;
    if total == 0 {
        &&& m.rate == Ratio { num: 0, den: 1 }
        &&& m.level == DoraLevel::NoData
        &&& m.history@ == Seq::<Ratio>::empty()
    } else {
        &&& m.rate == Ratio { num: failures as usize, den: total as usize }
        &&& m.level == cfr_level(failures as int, total as int)
        &&& m.history@ == history
    }
}

/// Change failure rate from the numbers of successful and failed deployments,
/// with the daily rates `history`; see `failure_rate_of`.
pub fn failure_rate(successes: usize, failures: usize, history: Vec<Ratio>) -> (m: RateMetric)
    requires
        successes + failures <= usize::MAX,
    ensures
        failure_rate_of(m, successes as nat, failures as nat, history@),
{
    let total = successes + failures;
    if total == 0 {
        return RateMetric { rate: Ratio { num: 0, den: 1 }, level: DoraLevel::NoData, history: Vec::new() };
    }
    let rate = Ratio { num: failures, den: total };
    let f = failures as u128;
    let t = total as u128;
    let level = if 20 * f <= t {
        DoraLevel::Elite
    } else if 10 * f <= t {
        DoraLevel::High
    } else if 20 * f <= 3 * t {
        DoraLevel::Medium
    } else {
        DoraLevel::Low
    };
    RateMetric { rate, level, history }
}

/// Band of a CI pass rate `passed / total`: Elite from 95 %, High from 85 %,
/// Medium from 70 %, Low below.
pub open spec fn ci_level(passed: int, total: int) -> DoraLevel {
    if 20 * passed >= 19 * total {
        DoraLevel::Elite
    } else if 20 * passed >= 17 * total {
        DoraLevel::High
    } else if 10 * passed >= 7 * total {
        DoraLevel::Medium
    } else {
        DoraLevel::Low
    }
}

/// The run was created at or after `since`.
pub open spec fn run_in(r: WorkflowRun, since: int) -> bool {
    r.created_at >= since
}

/// Runs created at or after `since`.
pub open spec fn runs_in(runs: Seq<WorkflowRun>, since: int) -> nat {
    count_where(runs, |r: WorkflowRun| run_in(r, since))
}

/// Passing runs created at or after `since`.
pub open spec fn passes_in(runs: Seq<WorkflowRun>, since: int) -> nat {
    count_where(runs, |r: WorkflowRun| run_in(r, since) && r.is_pass())
}

/// Runs created at or after `since` that are `age` whole days old at `now`.
pub open spec fn runs_at_age(runs: Seq<WorkflowRun>, since: int, now: Instant, age: int) -> nat {
    count_where(runs, |r: WorkflowRun| run_in(r, since) && age_days(now, r.created_at) == age)
}

/// Passing runs created at or after `since` that are `age` whole days old at `now`.
pub open spec fn passes_at_age(runs: Seq<WorkflowRun>, since: int, now: Instant, age: int) -> nat {
    count_where(
        runs,
        |r: WorkflowRun| run_in(r, since) && age_days(now, r.created_at) == age && r.is_pass(),
    )
}

/// Pass rate of the runs of one day, 1 when there were none.
pub open spec fn day_pass_rate(runs: Seq<WorkflowRun>, since: int, now: Instant, age: int) -> Ratio {
    fraction_or(
        passes_at_age(runs, since, now, age),
        runs_at_age(runs, since, now, age),
        Ratio { num: 1, den: 1 },
    )
}

/// Daily pass rates over `days` days ending at `now`, oldest first; a window
/// of no days still has one (empty) day.
pub open spec fn daily_pass_rates(runs: Seq<WorkflowRun>, since: int, now: Instant, days: int) -> Seq<
    Ratio,
> {
    Seq::new(
        if days == 0 {
            1nat
        } else {
            days as nat
        },
        |k: int|
            if k < days {
                day_pass_rate(runs, since, now, days - 1 - k)
            } else {
                Ratio { num: 1, den: 1 }
            },
    )
}

/// `m` is the CI pass rate of the runs created at or after `since`, with daily
/// rates over `days` days ending at `now`; `NoData` when there are no runs.
pub open spec fn pass_rate_of(
    m: RateMetric,
    runs: Seq<WorkflowRun>,
    since: int,
    now: Instant,
    days: u32,
) -> bool {
    let total = runs_in(runs, since);
    let passed = passes_in(runs, since);
    if total == 0 {
        &&& m.rate == Ratio { num: 0, den: 1 }
        &&& m.level == DoraLevel::NoData
        &&& m.history@ == Seq::<Ratio>::empty()
    } else {
        &&& m.rate == Ratio { num: passed as usize, den: total as usize }
        &&& m.level == ci_level(passed as int, total as int)
        &&& m.history@ == daily_pass_rates(runs, since, now, days as int)
    }
}

/// CI pass rate of the runs created at or after `since`.
pub fn ci_pass_rate(runs: &Vec<WorkflowRun>, since: i64, now: Instant, days: u32) -> (m: RateMetric)
    requires
        valid_now(now),
        forall|k: int| 0 <= k < runs@.len() ==> (#[trigger] runs@[k]).wf(),
    ensures
        pass_rate_of(m, runs@, since as int, now, days),
{
    let n = runs.len();
    let d = days as usize;
    let slots: usize = if d == 0 {
        1
    } else {
        d
    };
    let mut day_total: Vec<usize> = Vec::new();
    let mut day_pass: Vec<usize> = Vec::new();
    let mut k: usize = 0;
    while k < slots
        invariant
            k <= slots,
            day_total@.len() == k,
            day_pass@.len() == k,
            forall|j: int| 0 <= j < k ==> day_total@[j] == 0 && day_pass@[j] == 0,
        decreases slots - k,
    {
        day_total.push(0);
        day_pass.push(0);
        k = k + 1;
    }
    let mut total: usize = 0;
    let mut passed: usize = 0;
    let mut i: usize = 0;
    while i < n
        invariant
            n == runs@.len(),
            d == days as usize,
            slots == (if d == 0 {
                1
            } else {
                d
            }),
            i <= n,
            valid_now(now),
            forall|k: int| 0 <= k < runs@.len() ==> (#[trigger] runs@[k]).wf(),
            total == runs_in(runs@.take(i as int), since as int),
            passed == passes_in(runs@.take(i as int), since as int),
            day_total@.len() == slots,
            day_pass@.len() == slots,
            forall|j: int|
                0 <= j < slots ==> #[trigger] day_total@[j] == (if j < d {
                    runs_at_age(runs@.take(i as int), since as int, now, d - 1 - j)
                } else {
                    0
                }),
            forall|j: int|
                0 <= j < slots ==> #[trigger] day_pass@[j] == (if j < d {
                    passes_at_age(runs@.take(i as int), since as int, now, d - 1 - j)
                } else {
                    0
                }),
        decreases n - i,
    {
        let r = &runs[i];
        let pass = r.passed();
        let inside = r.created_at >= since;
        let age = age_in_days(now, r.created_at);
        proof {
            let s = runs@;
            let ii = i as int;
            lemma_count_where_step(s, |r: WorkflowRun| run_in(r, since as int), ii);
            lemma_count_where_step(s, |r: WorkflowRun| run_in(r, since as int) && r.is_pass(), ii);
            lemma_count_where_le(s.take(ii), |r: WorkflowRun| run_in(r, since as int));
            lemma_count_where_le(
                s.take(ii),
                |r: WorkflowRun| run_in(r, since as int) && r.is_pass(),
            );
            assert forall|j: int| 0 <= j < d implies #[trigger] runs_at_age(
                s.take(ii + 1),
                since as int,
                now,
                d - 1 - j,
            ) == runs_at_age(s.take(ii), since as int, now, d - 1 - j) + (if inside && age
                == d - 1 - j {
                1nat
            } else {
                0nat
            }) && runs_at_age(s.take(ii), since as int, now, d - 1 - j) <= ii by {
                let target = d - 1 - j;
                let f = |r: WorkflowRun|
                    run_in(r, since as int) && age_days(now, r.created_at) == target;
                lemma_count_where_step(s, f, ii);
                lemma_count_where_le(s.take(ii), f);
            }
            assert forall|j: int| 0 <= j < d implies #[trigger] passes_at_age(
                s.take(ii + 1),
                since as int,
                now,
                d - 1 - j,
            ) == passes_at_age(s.take(ii), since as int, now, d - 1 - j) + (if inside && age
                == d - 1 - j && pass {
                1nat
            } else {
                0nat
            }) && passes_at_age(s.take(ii), since as int, now, d - 1 - j) <= ii by {
                let target = d - 1 - j;
                let f = |r: WorkflowRun|
                    run_in(r, since as int) && age_days(now, r.created_at) == target
                        && r.is_pass();
                lemma_count_where_step(s, f, ii);
                lemma_count_where_le(s.take(ii), f);
            }
        }
        if inside {
            total = total + 1;
            if pass {
                passed = passed + 1;
            }
            if 0 <= age && (age as u64) < (d as u64) {
                let idx = d - 1 - age as usize;
                assert(runs_at_age(runs@.take(i + 1), since as int, now, d - 1 - idx) >= 0);
                assert(passes_at_age(runs@.take(i + 1), since as int, now, d - 1 - idx) >= 0);
                let t = day_total[idx];
                day_total.set(idx, t + 1);
                if pass {
                    let p = day_pass[idx];
                    day_pass.set(idx, p + 1);
                }
            }
        }
        i = i + 1;
    }
    proof {
        assert(runs@.take(n as int) =~= runs@);
    }
    if total == 0 {
        return RateMetric { rate: Ratio { num: 0, den: 1 }, level: DoraLevel::NoData, history: Vec::new() };
    }
    let p = passed as u128;
    let t = total as u128;
    let level = if 20 * p >= 19 * t {
        DoraLevel::Elite
    } else if 20 * p >= 17 * t {
        DoraLevel::High
    } else if 10 * p >= 7 * t {
        DoraLevel::Medium
    } else {
        DoraLevel::Low
    };
    let mut history: Vec<Ratio> = Vec::new();
    let mut j: usize = 0;
    while j < slots
        invariant
            j <= slots,
            d == days as usize,
            slots == (if d == 0 {
                1
            } else {
                d
            }),
            day_total@.len() == slots,
            day_pass@.len() == slots,
            history@.len() == j,
            forall|q: int|
                0 <= q < slots ==> #[trigger] day_total@[q] == (if q < d {
                    runs_at_age(runs@, since as int, now, d - 1 - q)
                } else {
                    0
                }),
            forall|q: int|
                0 <= q < slots ==> #[trigger] day_pass@[q] == (if q < d {
                    passes_at_age(runs@, since as int, now, d - 1 - q)
                } else {
                    0
                }),
            forall|q: int|
                0 <= q < j ==> #[trigger] history@[q] == daily_pass_rates(
                    runs@,
                    since as int,
                    now,
                    d as int,
                )[q],
        decreases slots - j,
    {
        let dt = day_total[j];
        let r = if dt == 0 {
            Ratio { num: 1, den: 1 }
        } else {
            Ratio { num: day_pass[j], den: dt }
        };
        history.push(r);
        j = j + 1;
    }
    proof {
        assert(history@ =~= daily_pass_rates(runs@, since as int, now, days as int));
    }
    RateMetric { rate: Ratio { num: passed, den: total }, level, history }
}

} // verus!
