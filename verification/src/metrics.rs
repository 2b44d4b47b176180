//! DORA metrics over a dataset, for a look-back window ending now.
use vstd::prelude::*;

use crate::clock::{
    age_in_days, max_span_minutes, minutes_between, current_instant, whole_minutes, window_start,
    valid_now, window_in_range, window_start_checked, Instant,
};
use crate::seqs::{
    count_where, gather, lemma_count_where_step, lemma_gather_append_none, lemma_gather_seconds,
    lemma_gather_step,
};
use crate::sorting::{ascending, lemma_ascending, sort_ascending};
use crate::summary::{
    age_days, bounded_by, ci_pass_rate, daily_medians, daily_medians_of, events_ok, failure_rate,
    failure_rate_of, fraction_or, frequency, frequency_of, lemma_ascending_bounded, median_x2,
    median_x2_of_sorted, pass_rate_of, summarize_minutes, summarizes,
};
use crate::text::text_eq;
use crate::types::{
    valid_instant, Dataset, Deployment, DeploymentStatus, DoraLevel, DoraMetrics, DurationMetric,
    PullRequest, RateMetric, Ratio, MAX_INSTANT, MIN_INSTANT,
};

verus! {

// ── What is measured ─────────────────────────────────────────────────────────
/// Minutes from opening to merge of a pull request opened at or after `since`.
pub open spec fn merge_span(p: PullRequest, since: int) -> Option<i64> {
    if p.created_at >= since && p.merged_at is Some {
        Some(whole_minutes(p.merged_at->0 - p.created_at) as i64)
    } else {
        None
    }
}

/// Minutes from opening to first review of a pull request opened at or after `since`.
pub open spec fn review_span(p: PullRequest, since: int) -> Option<i64> {
    if p.created_at >= since && p.first_review_at is Some {
        Some(whole_minutes(p.first_review_at->0 - p.created_at) as i64)
    } else {
        None
    }
}

/// Lines touched by a pull request opened at or after `since`.
pub open spec fn pr_size(p: PullRequest, since: int) -> Option<i64> {
    if p.created_at >= since {
        Some(p.lines() as i64)
    } else {
        None
    }
}

/// The branch is `main` or `master`.
pub open spec fn is_main_branch(name: Seq<char>) -> bool {
    name == "main"@ || name == "master"@
}

/// Merge instant of a pull request opened at or after `since` and merged into
/// `main` or `master`: the stand-in for a deployment when there is no
/// deployment data.
pub open spec fn main_merge_time(p: PullRequest, since: int) -> Option<i64> {
    if p.created_at >= since && p.merged_at is Some && is_main_branch(p.base_ref@) {
        Some(p.merged_at->0)
    } else {
        None
    }
}

pub open spec fn is_success_in(d: Deployment, since: int) -> bool {
    d.created_at >= since && d.status == DeploymentStatus::Success
}

pub open spec fn is_failure_in(d: Deployment, since: int) -> bool {
    d.created_at >= since && d.status == DeploymentStatus::Failure
}

/// Creation instant of a successful deployment created at or after `since`.
pub open spec fn success_time(d: Deployment, since: int) -> Option<i64> {
    if is_success_in(d, since) {
        Some(d.created_at)
    } else {
        None
    }
}

/// Merge of a pull request opened at or after `since`: its merge instant and
/// the minutes from opening to merge.
pub open spec fn merge_event(p: PullRequest, since: int) -> Option<(i64, i64)> {
    match merge_span(p, since) {
        Some(m) => Some((p.merged_at->0, m)),
        None => None,
    }
}

/// First review of a pull request opened at or after `since`: its instant and
/// the minutes from opening to it.
pub open spec fn review_event(p: PullRequest, since: int) -> Option<(i64, i64)> {
    match review_span(p, since) {
        Some(m) => Some((p.first_review_at->0, m)),
        None => None,
    }
}

pub open spec fn merge_events(prs: Seq<PullRequest>, since: int) -> Seq<(i64, i64)> {
    gather(prs, |p: PullRequest| merge_event(p, since))
}

pub open spec fn review_events(prs: Seq<PullRequest>, since: int) -> Seq<(i64, i64)> {
    gather(prs, |p: PullRequest| review_event(p, since))
}

pub open spec fn merge_spans(prs: Seq<PullRequest>, since: int) -> Seq<i64> {
    gather(prs, |p: PullRequest| merge_span(p, since))
}

pub open spec fn review_spans(prs: Seq<PullRequest>, since: int) -> Seq<i64> {
    gather(prs, |p: PullRequest| review_span(p, since))
}

pub open spec fn pr_sizes(prs: Seq<PullRequest>, since: int) -> Seq<i64> {
    gather(prs, |p: PullRequest| pr_size(p, since))
}

pub open spec fn main_merge_times(prs: Seq<PullRequest>, since: int) -> Seq<i64> {
    gather(prs, |p: PullRequest| main_merge_time(p, since))
}

pub open spec fn success_times(deps: Seq<Deployment>, since: int) -> Seq<i64> {
    gather(deps, |d: Deployment| success_time(d, since))
}

pub open spec fn success_count(deps: Seq<Deployment>, since: int) -> nat {
    count_where(deps, |d: Deployment| is_success_in(d, since))
}

pub open spec fn failure_count(deps: Seq<Deployment>, since: int) -> nat {
    count_where(deps, |d: Deployment| is_failure_in(d, since))
}

/// Some deployment was created at or after `since`.
pub open spec fn has_deployments(deps: Seq<Deployment>, since: int) -> bool {
    exists|i: int| 0 <= i < deps.len() && #[trigger] deps[i].created_at >= since
}

/// A successful deployment in the window that recovers from failure `f`: same
/// repository, created strictly later.
pub open spec fn recovers_from(d: Deployment, since: int, f: Deployment) -> bool {
    is_success_in(d, since) && d.repo@ == f.repo@ && d.created_at > f.created_at
}

/// Creation instant of the earliest deployment of `deps` that recovers from `f`.
pub open spec fn earliest_recovery(deps: Seq<Deployment>, since: int, f: Deployment) -> Option<i64>
    decreases deps.len(),
{
    if deps.len() == 0 {
        None
    } else {
        let rest = earliest_recovery(deps.drop_last(), since, f);
        let d = deps.last();
        if recovers_from(d, since, f) {
            match rest {
                Some(t) => if d.created_at < t {
                    Some(d.created_at)
                } else {
                    Some(t)
                },
                None => Some(d.created_at),
            }
        } else {
            rest
        }
    }
}

/// Minutes from failed deployment `f` (in the window) to its recovery, if any.
pub open spec fn recovery_span(deps: Seq<Deployment>, since: int, f: Deployment) -> Option<i64> {
    if is_failure_in(f, since) {
        match earliest_recovery(deps, since, f) {
            Some(t) => Some(whole_minutes(t - f.created_at) as i64),
            None => None,
        }
    } else {
        None
    }
}

/// Time to recovery of every failed deployment in the window that recovered.
pub open spec fn recovery_spans(deps: Seq<Deployment>, since: int) -> Seq<i64> {
    gather(deps, |f: Deployment| recovery_span(deps, since, f))
}

/// Recovery of failed deployment `f` (in the window): the instant of the
/// recovering deployment and the minutes from `f` to it.
pub open spec fn recovery_event(deps: Seq<Deployment>, since: int, f: Deployment) -> Option<(i64, i64)> {
    match recovery_span(deps, since, f) {
        Some(m) => Some((earliest_recovery(deps, since, f)->0, m)),
        None => None,
    }
}

pub open spec fn recovery_events(deps: Seq<Deployment>, since: int) -> Seq<(i64, i64)> {
    gather(deps, |f: Deployment| recovery_event(deps, since, f))
}

/// Failed deployments in the window created `age` whole days before `now`.
pub open spec fn failures_at_age(deps: Seq<Deployment>, since: int, now: Instant, age: int) -> nat {
    count_where(deps, |d: Deployment| is_failure_in(d, since) && age_days(now, d.created_at) == age)
}

/// Successful or failed deployments in the window created `age` whole days
/// before `now`.
pub open spec fn outcomes_at_age(deps: Seq<Deployment>, since: int, now: Instant, age: int) -> nat {
    count_where(
        deps,
        |d: Deployment|
            (is_success_in(d, since) || is_failure_in(d, since)) && age_days(now, d.created_at)
                == age,
    )
}

/// Change failure rate of each day of a window of `days` days ending at `now`,
/// oldest day first; 0 for a day without successful or failed deployments.
pub open spec fn daily_failure_rates(deps: Seq<Deployment>, since: int, now: Instant, days: int) -> Seq<
    Ratio,
> {
    Seq::new(
        days as nat,
        |k: int|
            fraction_or(
                failures_at_age(deps, since, now, days - 1 - k),
                outcomes_at_age(deps, since, now, days - 1 - k),
                Ratio { num: 0, den: 1 },
            ),
    )
}

/// `m` holds the DORA metrics of `ds` over the `lookback` days ending at `now`.
pub open spec fn metrics_of(m: DoraMetrics, ds: Dataset, lookback: u32, now: Instant) -> bool {
    let since = window_start(now, lookback);
    let prs = ds.prs@;
    let deps = ds.deployments@;
    let deployed = has_deployments(deps, since);
    &&& if deployed {
        frequency_of(m.deployment_frequency, success_times(deps, since), lookback, now)
    } else {
        frequency_of(m.deployment_frequency, main_merge_times(prs, since), lookback, now)
    }
    &&& summarizes(
        m.lead_time,
        merge_spans(prs, since),
        daily_medians(merge_events(prs, since), now, lookback as int),
        2880,
        20160,
        86400,
    )
    &&& if deployed {
        failure_rate_of(
            m.change_failure_rate,
            success_count(deps, since),
            failure_count(deps, since),
            daily_failure_rates(deps, since, now, lookback as int),
        )
    } else {
        &&& m.change_failure_rate.rate == Ratio { num: 0, den: 1 }
        &&& m.change_failure_rate.level == DoraLevel::NoData
        &&& m.change_failure_rate.history@ == Seq::<Ratio>::empty()
    }
    &&& if deployed {
        summarizes(
            m.mean_time_to_recovery,
            recovery_spans(deps, since),
            daily_medians(recovery_events(deps, since), now, lookback as int),
            120,
            2880,
            20160,
        )
    } else {
        &&& m.mean_time_to_recovery.median_minutes_x2 == 0
        &&& m.mean_time_to_recovery.level == DoraLevel::NoData
        &&& m.mean_time_to_recovery.history@ == Seq::<i64>::empty()
    }
    &&& summarizes(
        m.pr_cycle_time,
        merge_spans(prs, since),
        daily_medians(merge_events(prs, since), now, lookback as int),
        2880,
        8640,
        28800,
    )
    &&& summarizes(
        m.review_turnaround,
        review_spans(prs, since),
        daily_medians(review_events(prs, since), now, lookback as int),
        480,
        2880,
        8640,
    )
    &&& pass_rate_of(m.ci_pass_rate, ds.ci_runs@, since, now, lookback)
    &&& m.median_pr_size_x2 == median_x2(ascending(pr_sizes(prs, since)))
}

// ── Items older than the window ─────────────────────────────────────────────
/// Deployments created before `since` recover no failure.
pub proof fn lemma_earliest_recovery_append_old(
    deps: Seq<Deployment>,
    older: Seq<Deployment>,
    since: int,
    f: Deployment,
)
    requires
        forall|i: int| 0 <= i < older.len() ==> (#[trigger] older[i]).created_at < since,
    ensures
        earliest_recovery(deps + older, since, f) == earliest_recovery(deps, since, f),
    decreases older.len(),
{
    if older.len() > 0 {
        assert((deps + older).drop_last() =~= deps + older.drop_last());
        assert((deps + older).last() == older[older.len() - 1]);
        lemma_earliest_recovery_append_old(deps, older.drop_last(), since, f);
    } else {
        assert(deps + older =~= deps);
    }
}

/// Adding deployments created before `since` changes no recovery measured in
/// the window.
pub proof fn lemma_recoveries_append_old(deps: Seq<Deployment>, older: Seq<Deployment>, since: int)
    requires
        forall|i: int| 0 <= i < older.len() ==> (#[trigger] older[i]).created_at < since,
    ensures
        recovery_spans(deps + older, since) == recovery_spans(deps, since),
        recovery_events(deps + older, since) == recovery_events(deps, since),
{
    let all = deps + older;
    assert forall|f: Deployment| #[trigger] recovery_span(all, since, f) == recovery_span(deps, since, f)
        && recovery_event(all, since, f) == recovery_event(deps, since, f) by {
        lemma_earliest_recovery_append_old(deps, older, since, f);
    }
    let c2 = |f: Deployment| recovery_span(all, since, f);
    let c1 = |f: Deployment| recovery_span(deps, since, f);
    assert(c2 =~= c1);
    let e2 = |f: Deployment| recovery_event(all, since, f);
    let e1 = |f: Deployment| recovery_event(deps, since, f);
    assert(e2 =~= e1);
    lemma_gather_append_none(deps, older, c1);
    lemma_gather_append_none(deps, older, e1);
}

// ── Collectors ───────────────────────────────────────────────────────────────
pub open spec fn prs_wf(prs: Seq<PullRequest>) -> bool {
    forall|k: int| 0 <= k < prs.len() ==> (#[trigger] prs[k]).wf()
}

pub open spec fn deps_wf(deps: Seq<Deployment>) -> bool {
    forall|k: int| 0 <= k < deps.len() ==> valid_instant(#[trigger] deps[k].created_at)
}

/// The instants are all valid.
pub open spec fn all_valid(s: Seq<i64>) -> bool {
    forall|k: int| 0 <= k < s.len() ==> valid_instant(#[trigger] s[k])
}

fn collect_merge_events(prs: &Vec<PullRequest>, since: i64) -> (v: Vec<(i64, i64)>)
    requires
        prs_wf(prs@),
    ensures
        v@ == merge_events(prs@, since as int),
        events_ok(v@),
{
    let mut v: Vec<(i64, i64)> = Vec::new();
    let mut i: usize = 0;
    while i < prs.len()
        invariant
            i <= prs@.len(),
            prs_wf(prs@),
            v@ == merge_events(prs@.take(i as int), since as int),
            events_ok(v@),
        decreases prs@.len() - i,
    {
        let p = &prs[i];
        proof {
            lemma_gather_step(prs@, |p: PullRequest| merge_event(p, since as int), i as int);
            assert(prs@[i as int].wf());
        }
        if p.created_at >= since {
            if let Some(m) = p.merged_at {
                let span = minutes_between(m, p.created_at);
                v.push((m, span));
            }
        }
        i = i + 1;
    }
    proof {
        assert(prs@.take(prs@.len() as int) =~= prs@);
    }
    v
}

fn collect_review_events(prs: &Vec<PullRequest>, since: i64) -> (v: Vec<(i64, i64)>)
    requires
        prs_wf(prs@),
    ensures
        v@ == review_events(prs@, since as int),
        events_ok(v@),
{
    let mut v: Vec<(i64, i64)> = Vec::new();
    let mut i: usize = 0;
    while i < prs.len()
        invariant
            i <= prs@.len(),
            prs_wf(prs@),
            v@ == review_events(prs@.take(i as int), since as int),
            events_ok(v@),
        decreases prs@.len() - i,
    {
        let p = &prs[i];
        proof {
            lemma_gather_step(prs@, |p: PullRequest| review_event(p, since as int), i as int);
            assert(prs@[i as int].wf());
        }
        if p.created_at >= since {
            if let Some(r) = p.first_review_at {
                let span = minutes_between(r, p.created_at);
                v.push((r, span));
            }
        }
        i = i + 1;
    }
    proof {
        assert(prs@.take(prs@.len() as int) =~= prs@);
    }
    v
}

/// The durations of the events, in order.
fn durations_of(events: &Vec<(i64, i64)>) -> (v: Vec<i64>)
    requires
        events_ok(events@),
    ensures
        v@ == events@.map_values(|e: (i64, i64)| e.1),
        bounded_by(v@, max_span_minutes()),
{
    let mut v: Vec<i64> = Vec::new();
    let mut i: usize = 0;
    while i < events.len()
        invariant
            i <= events@.len(),
            events_ok(events@),
            v@ == events@.take(i as int).map_values(|e: (i64, i64)| e.1),
            bounded_by(v@, max_span_minutes()),
        decreases events@.len() - i,
    {
        let e = events[i];
        proof {
            assert(events@.take(i + 1).map_values(|e: (i64, i64)| e.1) =~= events@.take(
                i as int,
            ).map_values(|e: (i64, i64)| e.1).push(e.1));
        }
        v.push(e.1);
        i = i + 1;
    }
    proof {
        assert(events@.take(events@.len() as int) =~= events@);
    }
    v
}

fn collect_pr_sizes(prs: &Vec<PullRequest>, since: i64) -> (v: Vec<i64>)
    requires
        prs_wf(prs@),
    ensures
        v@ == pr_sizes(prs@, since as int),
        bounded_by(v@, max_span_minutes()),
{
    let mut v: Vec<i64> = Vec::new();
    let mut i: usize = 0;
    while i < prs.len()
        invariant
            i <= prs@.len(),
            prs_wf(prs@),
            v@ == pr_sizes(prs@.take(i as int), since as int),
            bounded_by(v@, max_span_minutes()),
        decreases prs@.len() - i,
    {
        let p = &prs[i];
        proof {
            lemma_gather_step(prs@, |p: PullRequest| pr_size(p, since as int), i as int);
            assert(prs@[i as int].wf());
        }
        if p.created_at >= since {
            let lines = p.additions as i64 + p.deletions as i64;
            v.push(lines);
        }
        i = i + 1;
    }
    proof {
        assert(prs@.take(prs@.len() as int) =~= prs@);
    }
    v
}

fn collect_main_merge_times(prs: &Vec<PullRequest>, since: i64) -> (v: Vec<i64>)
    requires
        prs_wf(prs@),
    ensures
        v@ == main_merge_times(prs@, since as int),
        all_valid(v@),
{
    let mut v: Vec<i64> = Vec::new();
    let mut i: usize = 0;
    while i < prs.len()
        invariant
            i <= prs@.len(),
            prs_wf(prs@),
            v@ == main_merge_times(prs@.take(i as int), since as int),
            all_valid(v@),
        decreases prs@.len() - i,
    {
        let p = &prs[i];
        proof {
            lemma_gather_step(prs@, |p: PullRequest| main_merge_time(p, since as int), i as int);
            assert(prs@[i as int].wf());
        }
        if p.created_at >= since {
            if let Some(m) = p.merged_at {
                if text_eq(p.base_ref.as_str(), "main") || text_eq(p.base_ref.as_str(), "master") {
                    v.push(m);
                }
            }
        }
        i = i + 1;
    }
    proof {
        assert(prs@.take(prs@.len() as int) =~= prs@);
    }
    v
}

fn collect_success_times(deps: &Vec<Deployment>, since: i64) -> (v: Vec<i64>)
    requires
        deps_wf(deps@),
    ensures
        v@ == success_times(deps@, since as int),
        all_valid(v@),
{
    let mut v: Vec<i64> = Vec::new();
    let mut i: usize = 0;
    while i < deps.len()
        invariant
            i <= deps@.len(),
            deps_wf(deps@),
            v@ == success_times(deps@.take(i as int), since as int),
            all_valid(v@),
        decreases deps@.len() - i,
    {
        let d = &deps[i];
        proof {
            lemma_gather_step(deps@, |d: Deployment| success_time(d, since as int), i as int);
            assert(valid_instant(deps@[i as int].created_at));
        }
        if d.created_at >= since && d.status == DeploymentStatus::Success {
            v.push(d.created_at);
        }
        i = i + 1;
    }
    proof {
        assert(deps@.take(deps@.len() as int) =~= deps@);
    }
    v
}

/// Numbers of successful and of failed deployments created at or after `since`.
fn count_outcomes(deps: &Vec<Deployment>, since: i64) -> (r: (usize, usize))
    ensures
        r.0 == success_count(deps@, since as int),
        r.1 == failure_count(deps@, since as int),
        r.0 + r.1 <= usize::MAX,
{
    let mut ok: usize = 0;
    let mut bad: usize = 0;
    let mut i: usize = 0;
    let ghost ps = |d: Deployment| is_success_in(d, since as int);
    let ghost pf = |d: Deployment| is_failure_in(d, since as int);
    while i < deps.len()
        invariant
            i <= deps@.len(),
            ps == (|d: Deployment| is_success_in(d, since as int)),
            pf == (|d: Deployment| is_failure_in(d, since as int)),
            ok == count_where(deps@.take(i as int), ps),
            bad == count_where(deps@.take(i as int), pf),
            ok + bad <= i,
        decreases deps@.len() - i,
    {
        let d = &deps[i];
        proof {
            lemma_count_where_step(deps@, ps, i as int);
            lemma_count_where_step(deps@, pf, i as int);
        }
        if d.created_at >= since {
            if d.status == DeploymentStatus::Success {
                ok = ok + 1;
            } else if d.status == DeploymentStatus::Failure {
                bad = bad + 1;
            }
        }
        i = i + 1;
    }
    proof {
        assert(deps@.take(deps@.len() as int) =~= deps@);
    }
    (ok, bad)
}

/// Whether some deployment was created at or after `since`.
fn any_deployment_since(deps: &Vec<Deployment>, since: i64) -> (b: bool)
    ensures
        b == has_deployments(deps@, since as int),
{
    let mut i: usize = 0;
    while i < deps.len()
        invariant
            i <= deps@.len(),
            forall|k: int| 0 <= k < i ==> #[trigger] deps@[k].created_at < since,
        decreases deps@.len() - i,
    {
        if deps[i].created_at >= since {
            return true;
        }
        i = i + 1;
    }
    false
}

/// Creation instant of the earliest deployment that recovers from `f`.
fn find_recovery(deps: &Vec<Deployment>, since: i64, f: &Deployment) -> (r: Option<i64>)
    requires
        deps_wf(deps@),
    ensures
        r == earliest_recovery(deps@, since as int, *f),
        r matches Some(t) ==> valid_instant(t) && t > f.created_at,
{
    let mut best: Option<i64> = None;
    let mut i: usize = 0;
    while i < deps.len()
        invariant
            i <= deps@.len(),
            deps_wf(deps@),
            best == earliest_recovery(deps@.take(i as int), since as int, *f),
            best matches Some(t) ==> valid_instant(t) && t > f.created_at,
        decreases deps@.len() - i,
    {
        let d = &deps[i];
        proof {
            assert(deps@.take(i + 1).drop_last() =~= deps@.take(i as int));
            assert(valid_instant(deps@[i as int].created_at));
        }
        if d.created_at >= since && d.status == DeploymentStatus::Success && d.repo == f.repo
            && d.created_at > f.created_at {
            best = match best {
                Some(t) => if d.created_at < t {
                    Some(d.created_at)
                } else {
                    Some(t)
                },
                None => Some(d.created_at),
            };
        }
        i = i + 1;
    }
    proof {
        assert(deps@.take(deps@.len() as int) =~= deps@);
    }
    best
}

fn collect_recovery_events(deps: &Vec<Deployment>, since: i64) -> (v: Vec<(i64, i64)>)
    requires
        deps_wf(deps@),
    ensures
        v@ == recovery_events(deps@, since as int),
        events_ok(v@),
{
    let mut v: Vec<(i64, i64)> = Vec::new();
    let mut i: usize = 0;
    while i < deps.len()
        invariant
            i <= deps@.len(),
            deps_wf(deps@),
            v@ == gather(
                deps@.take(i as int),
                |f: Deployment| recovery_event(deps@, since as int, f),
            ),
            events_ok(v@),
        decreases deps@.len() - i,
    {
        let f = &deps[i];
        proof {
            lemma_gather_step(
                deps@,
                |f: Deployment| recovery_event(deps@, since as int, f),
                i as int,
            );
            assert(valid_instant(deps@[i as int].created_at));
        }
        if f.created_at >= since && f.status == DeploymentStatus::Failure {
            if let Some(t) = find_recovery(deps, since, f) {
                let span = minutes_between(t, f.created_at);
                v.push((t, span));
            }
        }
        i = i + 1;
    }
    proof {
        assert(deps@.take(deps@.len() as int) =~= deps@);
    }
    v
}

/// Numbers of failed, and of successful or failed, deployments in the window
/// created `age` whole days before `now`.
fn count_day_outcomes(deps: &Vec<Deployment>, since: i64, now: Instant, age: i64) -> (r: (usize, usize))
    requires
        deps_wf(deps@),
        valid_now(now),
    ensures
        r.0 == failures_at_age(deps@, since as int, now, age as int),
        r.1 == outcomes_at_age(deps@, since as int, now, age as int),
{
    let ghost pf = |d: Deployment| is_failure_in(d, since as int) && age_days(now, d.created_at) == age as int;
    let ghost po = |d: Deployment|
        (is_success_in(d, since as int) || is_failure_in(d, since as int)) && age_days(
            now,
            d.created_at,
        ) == age as int;
    let mut bad: usize = 0;
    let mut all: usize = 0;
    let mut i: usize = 0;
    while i < deps.len()
        invariant
            i <= deps@.len(),
            deps_wf(deps@),
            valid_now(now),
            pf == (|d: Deployment| is_failure_in(d, since as int) && age_days(now, d.created_at) == age as int),
            po == (|d: Deployment|
                (is_success_in(d, since as int) || is_failure_in(d, since as int)) && age_days(
                    now,
                    d.created_at,
                ) == age as int),
            bad == count_where(deps@.take(i as int), pf),
            all == count_where(deps@.take(i as int), po),
            bad <= all <= i,
        decreases deps@.len() - i,
    {
        let d = &deps[i];
        proof {
            lemma_count_where_step(deps@, pf, i as int);
            lemma_count_where_step(deps@, po, i as int);
            assert(valid_instant(deps@[i as int].created_at));
        }
        if d.created_at >= since && age_in_days(now, d.created_at) == age {
            if d.status == DeploymentStatus::Success {
                all = all + 1;
            } else if d.status == DeploymentStatus::Failure {
                all = all + 1;
                bad = bad + 1;
            }
        }
        i = i + 1;
    }
    proof {
        assert(deps@.take(deps@.len() as int) =~= deps@);
    }
    (bad, all)
}

/// Daily change failure rates; see `daily_failure_rates`.
fn collect_daily_failure_rates(deps: &Vec<Deployment>, since: i64, now: Instant, days: u32) -> (v: Vec<
    Ratio,
>)
    requires
        deps_wf(deps@),
        valid_now(now),
    ensures
        v@ == daily_failure_rates(deps@, since as int, now, days as int),
{
    let d = days as usize;
    let mut v: Vec<Ratio> = Vec::new();
    let mut k: usize = 0;
    while k < d
        invariant
            d == days as usize,
            k <= d,
            deps_wf(deps@),
            valid_now(now),
            v@ == daily_failure_rates(deps@, since as int, now, days as int).take(k as int),
        decreases d - k,
    {
        let age = (d - 1 - k) as i64;
        let (bad, all) = count_day_outcomes(deps, since, now, age);
        let r = if all == 0 {
            Ratio { num: 0, den: 1 }
        } else {
            Ratio { num: bad, den: all }
        };
        proof {
            let full = daily_failure_rates(deps@, since as int, now, days as int);
            assert(full[k as int] == r);
            assert(full.take(k + 1) =~= full.take(k as int).push(r));
        }
        v.push(r);
        k = k + 1;
    }
    proof {
        let full = daily_failure_rates(deps@, since as int, now, days as int);
        assert(full.take(d as int) =~= full);
    }
    v
}

// ── Entry points ─────────────────────────────────────────────────────────────
/// All DORA metrics of `ds` over the `lookback_days` days ending at `now`.
///
/// Deployment frequency counts successful deployments when any deployment was
/// created in the window, and otherwise pull requests merged into `main` or
/// `master`.  Change failure rate is `NoData` without a successful or failed
/// deployment in the window, and time to recovery without a recovered
/// failure.  Duration and failure-rate histories hold one value per day of
/// the window, oldest first.
pub fn calculate_at(ds: &Dataset, lookback_days: u32, now: Instant) -> (m: DoraMetrics)
    requires
        ds.wf(),
        valid_now(now),
        window_in_range(now, lookback_days),
    ensures
        metrics_of(m, *ds, lookback_days, now),
{
    let since: i64 = match window_start_checked(now, lookback_days) {
        Some(s) => s,
        None => 0,
    };
    proof {
        assert(prs_wf(ds.prs@)) by {
            assert forall|k: int| 0 <= k < ds.prs@.len() implies (#[trigger] ds.prs@[k]).wf() by {}
        }
    }
    let deployed = any_deployment_since(&ds.deployments, since);
    let deployment_frequency = if deployed {
        let stamps = collect_success_times(&ds.deployments, since);
        frequency(&stamps, lookback_days, now)
    } else {
        let stamps = collect_main_merge_times(&ds.prs, since);
        frequency(&stamps, lookback_days, now)
    };
    let merge_evs = collect_merge_events(&ds.prs, since);
    let merges = durations_of(&merge_evs);
    let review_evs = collect_review_events(&ds.prs, since);
    let reviews = durations_of(&review_evs);
    proof {
        lemma_gather_seconds(
            ds.prs@,
            |p: PullRequest| merge_event(p, since as int),
            |p: PullRequest| merge_span(p, since as int),
        );
        lemma_gather_seconds(
            ds.prs@,
            |p: PullRequest| review_event(p, since as int),
            |p: PullRequest| review_span(p, since as int),
        );
    }
    let lead_time = summarize_minutes(
        &merges,
        daily_medians_of(&merge_evs, now, lookback_days),
        2880,
        20160,
        86400,
    );
    let pr_cycle_time = summarize_minutes(
        &merges,
        daily_medians_of(&merge_evs, now, lookback_days),
        2880,
        8640,
        28800,
    );
    let review_turnaround = summarize_minutes(
        &reviews,
        daily_medians_of(&review_evs, now, lookback_days),
        480,
        2880,
        8640,
    );
    let change_failure_rate = if deployed {
        let (ok, bad) = count_outcomes(&ds.deployments, since);
        let daily = collect_daily_failure_rates(&ds.deployments, since, now, lookback_days);
        failure_rate(ok, bad, daily)
    } else {
        RateMetric { rate: Ratio { num: 0, den: 1 }, level: DoraLevel::NoData, history: Vec::new() }
    };
    let mean_time_to_recovery = if deployed {
        let rec_evs = collect_recovery_events(&ds.deployments, since);
        let spans = durations_of(&rec_evs);
        proof {
            lemma_gather_seconds(
                ds.deployments@,
                |f: Deployment| recovery_event(ds.deployments@, since as int, f),
                |f: Deployment| recovery_span(ds.deployments@, since as int, f),
            );
        }
        summarize_minutes(&spans, daily_medians_of(&rec_evs, now, lookback_days), 120, 2880, 20160)
    } else {
        DurationMetric { median_minutes_x2: 0, level: DoraLevel::NoData, history: Vec::new() }
    };
    let ci = ci_pass_rate(&ds.ci_runs, since, now, lookback_days);
    let sizes = collect_pr_sizes(&ds.prs, since);
    let sorted_sizes = sort_ascending(&sizes);
    proof {
        lemma_ascending_bounded(sizes@, max_span_minutes());
    }
    let median_pr_size_x2 = median_x2_of_sorted(&sorted_sizes);
    DoraMetrics {
        deployment_frequency,
        lead_time,
        change_failure_rate,
        mean_time_to_recovery,
        pr_cycle_time,
        review_turnaround,
        ci_pass_rate: ci,
        median_pr_size_x2,
    }
}

/// All DORA metrics of `ds` over the `lookback_days` days ending at the
/// current time.  `None` when the window would start before the earliest
/// instant a timestamp can hold.
pub fn calculate(ds: &Dataset, lookback_days: u32) -> (m: Option<DoraMetrics>)
    requires
        ds.wf(),
    ensures
        exists|now: Instant|
            0 <= now.secs <= MAX_INSTANT && valid_now(now) && match m {
                Some(x) => window_in_range(now, lookback_days) && metrics_of(
                    x,
                    *ds,
                    lookback_days,
                    now,
                ),
                None => !window_in_range(now, lookback_days),
            },
{
    let now = current_instant();
    match window_start_checked(now, lookback_days) {
        Some(_) => Some(calculate_at(ds, lookback_days, now)),
        None => None,
    }
}

} // verus!
