//! Properties that hold of the library as a whole.
use vstd::prelude::*;
use vstd::relations::sorted_by;

use crate::app::{max_row, next_tab_index, prev_tab_index, row_above, row_below, App, TAB_COUNT};
use crate::breakdown::{
    author_stats_of, first_seen, group_at_rank, group_counts, group_key, group_keys, in_group,
    lemma_groups_partition, per_author_of, per_repo_of, repo_stats_of, run_of_repo, window_pr_count,
    GroupBy,
};
use crate::clock::{window_start, Instant};
use crate::config::repos_from;
use crate::display::{cadence_of, Cadence};
use crate::github::{next_page_spec, push_key, push_order, RawRepo, MAX_LISTED_REPOS, MAX_PR_PAGES};
use crate::metrics::{
    daily_failure_rates, earliest_recovery, failure_count, failures_at_age, has_deployments,
    recovers_from, is_failure_in, is_success_in,
    lemma_recoveries_append_old, main_merge_time, main_merge_times, merge_event, merge_span,
    merge_spans, metrics_of, outcomes_at_age, pr_size, recovery_spans, review_event, review_span,
    review_spans, success_count, success_time, success_times,
};
use crate::seqs::{
    count_where, is_permutation, lemma_count_where_append_false, lemma_count_where_ext,
    lemma_count_where_le, lemma_count_where_mono, lemma_count_where_none, lemma_count_where_or,
    lemma_count_where_not_before, lemma_count_where_not_from, lemma_count_where_same_multiset,
    lemma_gather_append_none, lemma_gather_len_count, lemma_sum_permuted, sum_ints,
};
use crate::sorting::{ascending, lemma_ascending, lemma_ranked, lemma_sorted_le, rank_le, ranked};
use crate::summary::{
    age_days, band_at_most, band_rank, cfr_level, ci_level, daily_pass_rates, freq_level,
    frequency_of, lemma_median_between, median_x2, passes_at_age, run_in, runs_at_age, summarizes,
};
use crate::text::{comma_list, is_space, lemma_trim_ends, split_commas, trim};
use crate::types::{
    size_bucket_text, AuthorStats, Dataset, Deployment, DeploymentStatus, DoraLevel,
    DurationMetric, DoraMetrics, FrequencyMetric, PullRequest,
    Ratio, RepoStats, WorkflowRun,
};

verus! {

broadcast use vstd::seq_lib::group_to_multiset_ensures;

// ── Navigation ───────────────────────────────────────────────────────────────
/// Tab navigation stays among the four tabs, and going to the next tab and
/// back (or back and then forward) returns to the tab one started from.
pub proof fn law_tab_round_trip(t: int)
    requires
        0 <= t < TAB_COUNT,
    ensures
        0 <= next_tab_index(t) < TAB_COUNT,
        0 <= prev_tab_index(t) < TAB_COUNT,
        prev_tab_index(next_tab_index(t)) == t,
        next_tab_index(prev_tab_index(t)) == t,
{
}

/// Moving the selection down never selects past the last row of the shown
/// table, and moving it up never leaves a selection that was within it.
pub proof fn law_selection_stays_in_table(a: App)
    ensures
        0 <= row_below(a) <= max_row(a),
        a.selected <= max_row(a) ==> 0 <= row_above(a) <= max_row(a),
        row_above(a) <= a.selected,
{
}

// ── Fetching ─────────────────────────────────────────────────────────────────
/// Pull-request pages are read one after another and never beyond page
/// `MAX_PR_PAGES` (at most 1000 pull requests per repository).
pub proof fn law_page_cap(page: u32, fetched: nat, stop: bool)
    ensures
        next_page_spec(page, fetched, stop) matches Some(next) ==> next == page + 1 && next
            <= MAX_PR_PAGES,
        fetched == 0 || stop ==> next_page_spec(page, fetched, stop) is None,
{
}

// ── Bands ────────────────────────────────────────────────────────────────────
/// A longer duration never gets a better band (for thresholds in increasing
/// order).
pub proof fn law_duration_band_monotone(x: int, y: int, elite: int, high: int, medium: int)
    requires
        x <= y,
        elite <= high <= medium,
    ensures
        band_rank(band_at_most(x, elite, high, medium)) <= band_rank(
            band_at_most(y, elite, high, medium),
        ),
{
}

/// More events in the same window never get a worse frequency band.
pub proof fn law_frequency_band_monotone(a: int, b: int, window: int)
    requires
        0 <= a <= b,
    ensures
        band_rank(freq_level(b, window)) <= band_rank(freq_level(a, window)),
{
}

/// A higher change failure rate never gets a better band.
pub proof fn law_failure_band_monotone(f1: int, t1: int, f2: int, t2: int)
    requires
        0 <= f1,
        0 <= f2,
        0 < t1,
        0 < t2,
        f1 * t2 <= f2 * t1,
    ensures
        band_rank(cfr_level(f1, t1)) <= band_rank(cfr_level(f2, t2)),
{
    assert(20 * f2 <= t2 ==> 20 * f1 <= t1) by (nonlinear_arith)
        requires
            0 < t1,
            0 < t2,
            f1 * t2 <= f2 * t1,
    ;
    assert(10 * f2 <= t2 ==> 10 * f1 <= t1) by (nonlinear_arith)
        requires
            0 < t1,
            0 < t2,
            f1 * t2 <= f2 * t1,
    ;
    assert(20 * f2 <= 3 * t2 ==> 20 * f1 <= 3 * t1) by (nonlinear_arith)
        requires
            0 < t1,
            0 < t2,
            f1 * t2 <= f2 * t1,
    ;
}

/// A higher CI pass rate never gets a worse band.
pub proof fn law_pass_band_monotone(p1: int, t1: int, p2: int, t2: int)
    requires
        0 <= p1,
        0 <= p2,
        0 < t1,
        0 < t2,
        p1 * t2 <= p2 * t1,
    ensures
        band_rank(ci_level(p2, t2)) <= band_rank(ci_level(p1, t1)),
{
    assert(20 * p1 >= 19 * t1 ==> 20 * p2 >= 19 * t2) by (nonlinear_arith)
        requires
            0 < t1,
            0 < t2,
            p1 * t2 <= p2 * t1,
    ;
    assert(20 * p1 >= 17 * t1 ==> 20 * p2 >= 17 * t2) by (nonlinear_arith)
        requires
            0 < t1,
            0 < t2,
            p1 * t2 <= p2 * t1,
    ;
    assert(10 * p1 >= 7 * t1 ==> 10 * p2 >= 7 * t2) by (nonlinear_arith)
        requires
            0 < t1,
            0 < t2,
            p1 * t2 <= p2 * t1,
    ;
}

/// Rank of a size class, smallest first.
pub open spec fn bucket_rank(b: Seq<char>) -> int {
    if b == "XS"@ {
        0
    } else if b == "S"@ {
        1
    } else if b == "M"@ {
        2
    } else if b == "L"@ {
        3
    } else {
        4
    }
}

/// A larger change never falls in a smaller size class.
pub proof fn law_size_bucket_monotone(a: int, b: int)
    requires
        a <= b,
    ensures
        bucket_rank(size_bucket_text(a)) <= bucket_rank(size_bucket_text(b)),
{
    reveal_strlit("XS");
    reveal_strlit("S");
    reveal_strlit("M");
    reveal_strlit("L");
    reveal_strlit("XL");
    assert("XS"@.len() == 2 && "S"@.len() == 1 && "M"@.len() == 1 && "L"@.len() == 1);
    assert("S"@[0] != "M"@[0] && "S"@[0] != "L"@[0] && "M"@[0] != "L"@[0]);
    assert("XL"@[1] != "XS"@[1]);
    assert("XS"@ != "S"@ && "XS"@ != "M"@ && "XS"@ != "L"@ && "XS"@ != "XL"@);
    assert("S"@ != "M"@ && "S"@ != "L"@ && "S"@ != "XL"@);
    assert("M"@ != "L"@ && "M"@ != "XL"@ && "L"@ != "XL"@);
}

/// No workflow run counts as both passed and failed.
pub proof fn law_pass_fail_exclusive(r: WorkflowRun)
    ensures
        !(r.is_pass() && r.is_fail()),
{
    reveal_strlit("success");
    reveal_strlit("failure");
    reveal_strlit("timed_out");
    assert("success"@[0] != "failure"@[0]);
    assert("success"@[0] != "timed_out"@[0]);
    assert("success"@ != "failure"@);
    assert("success"@ != "timed_out"@);
}

// ── Metrics ──────────────────────────────────────────────────────────────────
/// Lead time and cycle time are `NoData` exactly when no pull request opened
/// in the window was merged, and review turnaround exactly when none of them
/// was reviewed.  Time to restore is `NoData` exactly when no failed
/// deployment in the window recovered (or there was no deployment), and the
/// change failure rate exactly when no deployment in the window succeeded or
/// failed.
pub proof fn law_no_data_when_nothing_measured(m: DoraMetrics, ds: Dataset, lookback: u32, now: Instant)
    requires
        metrics_of(m, ds, lookback, now),
    ensures
        (m.lead_time.level == DoraLevel::NoData) <==> merge_spans(
            ds.prs@,
            window_start(now, lookback),
        ).len() == 0,
        (m.pr_cycle_time.level == DoraLevel::NoData) <==> merge_spans(
            ds.prs@,
            window_start(now, lookback),
        ).len() == 0,
        (m.review_turnaround.level == DoraLevel::NoData) <==> review_spans(
            ds.prs@,
            window_start(now, lookback),
        ).len() == 0,
        (m.mean_time_to_recovery.level == DoraLevel::NoData) <==> (!has_deployments(
            ds.deployments@,
            window_start(now, lookback),
        ) || recovery_spans(ds.deployments@, window_start(now, lookback)).len() == 0),
        (m.change_failure_rate.level == DoraLevel::NoData) <==> (!has_deployments(
            ds.deployments@,
            window_start(now, lookback),
        ) || success_count(ds.deployments@, window_start(now, lookback)) + failure_count(
            ds.deployments@,
            window_start(now, lookback),
        ) == 0),
{
    let since = window_start(now, lookback);
    if has_deployments(ds.deployments@, since) && recovery_spans(ds.deployments@, since).len() > 0 {
        assert(band_at_most(median_x2(ascending(recovery_spans(ds.deployments@, since))), 120, 2880, 20160) != DoraLevel::NoData);
    }
}

/// Without any deployment in the window, change failure rate and time to
/// recovery are `NoData`, and deployment frequency counts pull requests merged
/// into `main` or `master` instead.  With deployments, it counts successful
/// deployments.
pub proof fn law_deployment_fallback(m: DoraMetrics, ds: Dataset, lookback: u32, now: Instant)
    requires
        metrics_of(m, ds, lookback, now),
    ensures
        !has_deployments(ds.deployments@, window_start(now, lookback)) ==> {
            &&& m.change_failure_rate.level == DoraLevel::NoData
            &&& m.mean_time_to_recovery.level == DoraLevel::NoData
            &&& m.deployment_frequency.events == main_merge_times(
                ds.prs@,
                window_start(now, lookback),
            ).len()
        },
        has_deployments(ds.deployments@, window_start(now, lookback))
            ==> m.deployment_frequency.events == success_times(
            ds.deployments@,
            window_start(now, lookback),
        ).len(),
{
}

/// A daily history has one entry per day of the window (at least one for CI),
/// whenever the metric has data.
pub proof fn law_history_lengths(m: DoraMetrics, ds: Dataset, lookback: u32, now: Instant)
    requires
        metrics_of(m, ds, lookback, now),
    ensures
        m.deployment_frequency.level != DoraLevel::NoData ==> m.deployment_frequency.history@.len()
            == lookback,
        m.ci_pass_rate.level != DoraLevel::NoData ==> m.ci_pass_rate.history@.len() == if lookback
            == 0 {
            1
        } else {
            lookback as int
        },
        m.lead_time.level != DoraLevel::NoData ==> m.lead_time.history@.len() == lookback,
        m.pr_cycle_time.level != DoraLevel::NoData ==> m.pr_cycle_time.history@.len() == lookback,
        m.review_turnaround.level != DoraLevel::NoData ==> m.review_turnaround.history@.len()
            == lookback,
        m.mean_time_to_recovery.level != DoraLevel::NoData
            ==> m.mean_time_to_recovery.history@.len() == lookback,
        m.change_failure_rate.level != DoraLevel::NoData ==> m.change_failure_rate.history@.len()
            == lookback,
{
}

/// The median of measured durations lies between the shortest and the
/// longest of them.
pub proof fn law_median_within_range(
    m: crate::types::DurationMetric,
    mins: Seq<i64>,
    history: Seq<i64>,
    elite: int,
    high: int,
    medium: int,
)
    requires
        summarizes(m, mins, history, elite, high, medium),
        mins.len() > 0,
    ensures
        exists|lo: int, hi: int|
            #![trigger mins[lo], mins[hi]]
            0 <= lo < mins.len() && 0 <= hi < mins.len() && 2 * mins[lo] <= m.median_minutes_x2
                <= 2 * mins[hi] && forall|k: int|
                0 <= k < mins.len() ==> mins[lo] <= #[trigger] mins[k] <= mins[hi],
{
    let s = ascending(mins);
    lemma_ascending(mins);
    lemma_median_between(s);
    let n = s.len() as int;
    assert(s.contains(s[0]));
    assert(s.to_multiset().count(s[0]) > 0);
    assert(mins.to_multiset().count(s[0]) > 0);
    assert(mins.contains(s[0]));
    let lo = choose|i: int| 0 <= i < mins.len() && mins[i] == s[0];
    assert(s.contains(s[n - 1]));
    assert(s.to_multiset().count(s[n - 1]) > 0);
    assert(mins.to_multiset().count(s[n - 1]) > 0);
    assert(mins.contains(s[n - 1]));
    let hi = choose|i: int| 0 <= i < mins.len() && mins[i] == s[n - 1];
    assert forall|k: int| 0 <= k < mins.len() implies mins[lo] <= #[trigger] mins[k] <= mins[hi] by {
        assert(mins.contains(mins[k]));
        assert(mins.to_multiset().count(mins[k]) > 0);
        assert(s.to_multiset().count(mins[k]) > 0);
        assert(s.contains(mins[k]));
        let j = choose|j: int| 0 <= j < s.len() && s[j] == mins[k];
        lemma_sorted_le(s, 0, j);
        lemma_sorted_le(s, j, n - 1);
    }
}

/// A fraction between 0 and 1.
pub open spec fn unit_fraction(r: Ratio) -> bool {
    r.den > 0 && r.num <= r.den
}

/// The CI pass rate and the change failure rate, and every daily rate of
/// either, are fractions between 0 and 1.
pub proof fn law_rates_are_fractions(m: DoraMetrics, ds: Dataset, lookback: u32, now: Instant)
    requires
        metrics_of(m, ds, lookback, now),
    ensures
        unit_fraction(m.ci_pass_rate.rate),
        unit_fraction(m.change_failure_rate.rate),
        forall|k: int|
            0 <= k < m.ci_pass_rate.history@.len() ==> unit_fraction(
                #[trigger] m.ci_pass_rate.history@[k],
            ),
        forall|k: int|
            0 <= k < m.change_failure_rate.history@.len() ==> unit_fraction(
                #[trigger] m.change_failure_rate.history@[k],
            ),
{
    let since = window_start(now, lookback);
    let runs = ds.ci_runs@;
    assert(ds.ci_runs.len() == runs.len());
    assert(ds.deployments.len() == ds.deployments@.len());
    lemma_count_where_mono(
        runs,
        |r: WorkflowRun| run_in(r, since) && r.is_pass(),
        |r: WorkflowRun| run_in(r, since),
    );
    lemma_count_where_le(runs, |r: WorkflowRun| run_in(r, since));
    assert forall|age: int| #[trigger] passes_at_age(runs, since, now, age) <= runs_at_age(
        runs,
        since,
        now,
        age,
    ) && runs_at_age(runs, since, now, age) <= runs.len() by {
        lemma_count_where_mono(
            runs,
            |r: WorkflowRun|
                run_in(r, since) && crate::summary::age_days(now, r.created_at) == age
                    && r.is_pass(),
            |r: WorkflowRun| run_in(r, since) && crate::summary::age_days(now, r.created_at) == age,
        );
        lemma_count_where_le(
            runs,
            |r: WorkflowRun| run_in(r, since) && crate::summary::age_days(now, r.created_at) == age,
        );
    }
    let deps = ds.deployments@;
    lemma_count_where_le(deps, |d: crate::types::Deployment| crate::metrics::is_success_in(d, since));
    lemma_count_where_le(deps, |d: crate::types::Deployment| crate::metrics::is_failure_in(d, since));
    crate::seqs::lemma_count_where_disjoint(
        deps,
        |d: crate::types::Deployment| crate::metrics::is_success_in(d, since),
        |d: crate::types::Deployment| crate::metrics::is_failure_in(d, since),
    );    assert forall|age: int| #[trigger] failures_at_age(deps, since, now, age) <= outcomes_at_age(
        deps,
        since,
        now,
        age,
    ) && outcomes_at_age(deps, since, now, age) <= deps.len() by {
        lemma_count_where_mono(
            deps,
            |d: crate::types::Deployment|
                crate::metrics::is_failure_in(d, since) && crate::summary::age_days(
                    now,
                    d.created_at,
                ) == age,
            |d: crate::types::Deployment|
                (crate::metrics::is_success_in(d, since) || crate::metrics::is_failure_in(d, since))
                    && crate::summary::age_days(now, d.created_at) == age,
        );
        lemma_count_where_le(
            deps,
            |d: crate::types::Deployment|
                (crate::metrics::is_success_in(d, since) || crate::metrics::is_failure_in(d, since))
                    && crate::summary::age_days(now, d.created_at) == age,
        );
    }
}

// ── Breakdowns ───────────────────────────────────────────────────────────────
/// The per-repository breakdown lists each repository that has a pull request
/// exactly once, busiest (most pull requests in the window) first, and no
/// repository has more merged pull requests than pull requests.
pub proof fn law_per_repo_shape(r: Seq<RepoStats>, ds: Dataset, lookback: u32, now: Instant)
    requires
        per_repo_of(r, ds, lookback, now),
    ensures
        forall|i: int, j: int| 0 <= i < j < r.len() ==> #[trigger] r[i].pr_count >= #[trigger] r[j].pr_count,
        forall|i: int, j: int|
            0 <= i < r.len() && 0 <= j < r.len() && i != j ==> #[trigger] r[i].repo@ != #[trigger] r[j].repo@,
        forall|k: int|
            0 <= k < ds.prs@.len() ==> exists|i: int|
                0 <= i < r.len() && #[trigger] r[i].repo@ == (#[trigger] ds.prs@[k]).repo@,
        forall|i: int| 0 <= i < r.len() ==> #[trigger] r[i].merged_count <= r[i].pr_count,
{
    let since = window_start(now, lookback);
    let prs = ds.prs@;
    assert(ds.prs.len() == prs.len());
    crate::breakdown::lemma_group_ranking(prs, GroupBy::Repo, since);
    assert forall|i: int| 0 <= i < r.len() implies #[trigger] r[i].merged_count <= r[i].pr_count by {
        let name = group_at_rank(prs, GroupBy::Repo, since, i);
        assert(repo_stats_of(r[i], ds, name, since));
        lemma_count_where_mono(
            prs,
            |p: PullRequest| in_group(p, GroupBy::Repo, name, since) && p.merged_at is Some,
            |p: PullRequest| in_group(p, GroupBy::Repo, name, since),
        );
    }
    assert forall|i: int, j: int| 0 <= i < j < r.len() implies #[trigger] r[i].pr_count
        >= #[trigger] r[j].pr_count by {
        assert(repo_stats_of(r[i], ds, group_at_rank(prs, GroupBy::Repo, since, i), since));
        assert(repo_stats_of(r[j], ds, group_at_rank(prs, GroupBy::Repo, since, j), since));
    }
    assert forall|i: int, j: int|
        0 <= i < r.len() && 0 <= j < r.len() && i != j implies #[trigger] r[i].repo@
        != #[trigger] r[j].repo@ by {
        assert(repo_stats_of(r[i], ds, group_at_rank(prs, GroupBy::Repo, since, i), since));
        assert(repo_stats_of(r[j], ds, group_at_rank(prs, GroupBy::Repo, since, j), since));
    }
    assert forall|k: int| 0 <= k < prs.len() implies exists|i: int|
        0 <= i < r.len() && #[trigger] r[i].repo@ == (#[trigger] prs[k]).repo@ by {
        let i = choose|i: int|
            0 <= i < first_seen(prs, GroupBy::Repo).len() && #[trigger] group_at_rank(
                prs,
                GroupBy::Repo,
                since,
                i,
            ) == group_key(prs[k], GroupBy::Repo);
        assert(repo_stats_of(r[i], ds, group_at_rank(prs, GroupBy::Repo, since, i), since));
    }
}

/// The per-author breakdown lists each author of a pull request exactly once,
/// most active (most pull requests in the window) first, and no author has
/// more merged pull requests than pull requests.
pub proof fn law_per_author_shape(a: Seq<AuthorStats>, ds: Dataset, lookback: u32, now: Instant)
    requires
        per_author_of(a, ds, lookback, now),
    ensures
        forall|i: int, j: int| 0 <= i < j < a.len() ==> #[trigger] a[i].pr_count >= #[trigger] a[j].pr_count,
        forall|i: int, j: int|
            0 <= i < a.len() && 0 <= j < a.len() && i != j ==> #[trigger] a[i].author@ != #[trigger] a[j].author@,
        forall|k: int|
            0 <= k < ds.prs@.len() ==> exists|i: int|
                0 <= i < a.len() && #[trigger] a[i].author@ == (#[trigger] ds.prs@[k]).author@,
        forall|i: int| 0 <= i < a.len() ==> #[trigger] a[i].merged_count <= a[i].pr_count,
{
    let since = window_start(now, lookback);
    let prs = ds.prs@;
    assert(ds.prs.len() == prs.len());
    crate::breakdown::lemma_group_ranking(prs, GroupBy::Author, since);
    assert forall|i: int| 0 <= i < a.len() implies #[trigger] a[i].merged_count <= a[i].pr_count by {
        let name = group_at_rank(prs, GroupBy::Author, since, i);
        assert(author_stats_of(a[i], ds, name, since));
        lemma_count_where_mono(
            prs,
            |p: PullRequest| in_group(p, GroupBy::Author, name, since) && p.merged_at is Some,
            |p: PullRequest| in_group(p, GroupBy::Author, name, since),
        );
    }
    assert forall|i: int, j: int| 0 <= i < j < a.len() implies #[trigger] a[i].pr_count
        >= #[trigger] a[j].pr_count by {
        assert(author_stats_of(a[i], ds, group_at_rank(prs, GroupBy::Author, since, i), since));
        assert(author_stats_of(a[j], ds, group_at_rank(prs, GroupBy::Author, since, j), since));
    }
    assert forall|i: int, j: int|
        0 <= i < a.len() && 0 <= j < a.len() && i != j implies #[trigger] a[i].author@
        != #[trigger] a[j].author@ by {
        assert(author_stats_of(a[i], ds, group_at_rank(prs, GroupBy::Author, since, i), since));
        assert(author_stats_of(a[j], ds, group_at_rank(prs, GroupBy::Author, since, j), since));
    }
    assert forall|k: int| 0 <= k < prs.len() implies exists|i: int|
        0 <= i < a.len() && #[trigger] a[i].author@ == (#[trigger] prs[k]).author@ by {
        let i = choose|i: int|
            0 <= i < first_seen(prs, GroupBy::Author).len() && #[trigger] group_at_rank(
                prs,
                GroupBy::Author,
                since,
                i,
            ) == group_key(prs[k], GroupBy::Author);
        assert(author_stats_of(a[i], ds, group_at_rank(prs, GroupBy::Author, since, i), since));
    }
}

/// Total number of pull requests over the entries of a per-repository breakdown.
pub open spec fn repo_pr_total(r: Seq<RepoStats>) -> int {
    sum_ints(r.map_values(|x: RepoStats| x.pr_count as int))
}

/// Total number of pull requests over the entries of a per-author breakdown.
pub open spec fn author_pr_total(a: Seq<AuthorStats>) -> int {
    sum_ints(a.map_values(|x: AuthorStats| x.pr_count as int))
}

/// The ranked positions of the groups, as integers, list each group once.
proof fn lemma_rank_positions(prs: Seq<PullRequest>, by: GroupBy, since: int)
    requires
        prs.len() <= usize::MAX,
    ensures
        is_permutation(
            ranked(group_keys(prs, by, since)).map_values(|x: usize| x as int),
            first_seen(prs, by).len() as int,
        ),
{
    let keys = group_keys(prs, by, since);
    crate::breakdown::lemma_first_seen_len(prs, by);
    lemma_ranked(keys);
    let p = ranked(keys).map_values(|x: usize| x as int);
    assert forall|i: int, j: int| 0 <= i < j < p.len() implies #[trigger] p[i] != #[trigger] p[j] by {
        assert(ranked(keys)[i] != ranked(keys)[j]);
    }
}

/// Every pull request opened in the window is counted for exactly one
/// repository and for exactly one author: the breakdowns' numbers of pull
/// requests add up to the number of pull requests in the window.
pub proof fn law_breakdowns_count_every_pr(
    r: Seq<RepoStats>,
    a: Seq<AuthorStats>,
    ds: Dataset,
    lookback: u32,
    now: Instant,
)
    requires
        per_repo_of(r, ds, lookback, now),
        per_author_of(a, ds, lookback, now),
    ensures
        repo_pr_total(r) == window_pr_count(ds.prs@, window_start(now, lookback)),
        author_pr_total(a) == window_pr_count(ds.prs@, window_start(now, lookback)),
{
    let since = window_start(now, lookback);
    let prs = ds.prs@;
    assert(ds.prs.len() == prs.len());
    // repositories
    let names = first_seen(prs, GroupBy::Repo);
    let counts = group_counts(prs, GroupBy::Repo, names, since);
    let order = ranked(group_keys(prs, GroupBy::Repo, since));
    let p = order.map_values(|x: usize| x as int);
    lemma_rank_positions(prs, GroupBy::Repo, since);
    lemma_sum_permuted(counts, p);
    lemma_groups_partition(prs, GroupBy::Repo, since);
    let lhs = r.map_values(|x: RepoStats| x.pr_count as int);
    let rhs = p.map_values(|x: int| counts[x]);
    assert forall|i: int| 0 <= i < r.len() implies #[trigger] lhs[i] == rhs[i] by {
        assert(repo_stats_of(r[i], ds, group_at_rank(prs, GroupBy::Repo, since, i), since));
    }
    assert(lhs =~= rhs);
    // authors
    let anames = first_seen(prs, GroupBy::Author);
    let acounts = group_counts(prs, GroupBy::Author, anames, since);
    let aorder = ranked(group_keys(prs, GroupBy::Author, since));
    let ap = aorder.map_values(|x: usize| x as int);
    lemma_rank_positions(prs, GroupBy::Author, since);
    lemma_sum_permuted(acounts, ap);
    lemma_groups_partition(prs, GroupBy::Author, since);
    let alhs = a.map_values(|x: AuthorStats| x.pr_count as int);
    let arhs = ap.map_values(|x: int| acounts[x]);
    assert forall|i: int| 0 <= i < a.len() implies #[trigger] alhs[i] == arhs[i] by {
        assert(author_stats_of(a[i], ds, group_at_rank(prs, GroupBy::Author, since, i), since));
    }
    assert(alhs =~= arhs);
}

// ── Settings ─────────────────────────────────────────────────────────────────
/// Every repository name taken from `GITHUB_REPOS` is non-empty and has no
/// white space at either end.
pub proof fn law_repo_names_trimmed(value: Option<Seq<char>>, i: int)
    requires
        0 <= i < repos_from(value).len(),
    ensures
        repos_from(value)[i].len() > 0,
        !is_space(repos_from(value)[i][0]),
        !is_space(repos_from(value)[i].last()),
{
    let v = value->0;
    let pieces = split_commas(v).map_values(|p: Seq<char>| trim(p));
    let keep = |p: Seq<char>| p.len() > 0;
    let name = comma_list(v)[i];
    assert(comma_list(v) == pieces.filter(keep));
    assert(pieces.filter(keep).contains(name)) by {
        broadcast use vstd::seq_lib::group_filter_ensures;
    }
    pieces.lemma_filter_contains_rev(keep, name);
    let j = choose|j: int| 0 <= j < pieces.len() && pieces[j] == name;
    lemma_trim_ends(split_commas(v)[j]);
}

/// When the owner's repositories are listed, each repository kept (among the
/// first `MAX_LISTED_REPOS` in order of last push) was pushed no earlier than
/// any repository left out.
pub proof fn law_repo_cap_keeps_most_recent(raws: Seq<RawRepo>, i: int, j: int)
    requires
        raws.len() <= usize::MAX,
        0 <= i < MAX_LISTED_REPOS,
        MAX_LISTED_REPOS <= j < raws.len(),
    ensures
        push_key(raws[push_order(raws)[i] as int]) >= push_key(raws[push_order(raws)[j] as int]),
{
    let keys = raws.map_values(|r: RawRepo| push_key(r));
    lemma_ranked(keys);
    assert(push_order(raws) == ranked(keys));
    let order = push_order(raws);
    assert(rank_le(keys, order[i], order[j]));
    assert(keys[order[i] as int] == push_key(raws[order[i] as int]));
    assert(keys[order[j] as int] == push_key(raws[order[j] as int]));
}

// ── Presentation ─────────────────────────────────────────────────────────────
/// A deployment frequency is shown per day exactly when it is Elite, per week
/// exactly when it is High, per month when it is Medium or Low, and as no data
/// when there were no events.
pub proof fn law_cadence_follows_level(m: FrequencyMetric, stamps: Seq<i64>, window: u32, now: Instant)
    requires
        frequency_of(m, stamps, window, now),
    ensures
        cadence_of(m) == match m.level {
            DoraLevel::NoData => Cadence::NoData,
            DoraLevel::Elite => Cadence::PerDay,
            DoraLevel::High => Cadence::PerWeek,
            _ => Cadence::PerMonth,
        },
{
}

// ── The window ───────────────────────────────────────────────────────────────
/// Pull requests, deployments and workflow runs created before the window
/// change no metric: adding them to a dataset leaves every metric over the
/// window as it was, the choice between deployment data and merged pull
/// requests included.
pub proof fn law_older_items_change_nothing(
    m: DoraMetrics,
    ds: Dataset,
    more: Dataset,
    older_prs: Seq<PullRequest>,
    older_deps: Seq<Deployment>,
    older_runs: Seq<WorkflowRun>,
    lookback: u32,
    now: Instant,
)
    requires
        metrics_of(m, ds, lookback, now),
        more.prs@ == ds.prs@ + older_prs,
        more.deployments@ == ds.deployments@ + older_deps,
        more.ci_runs@ == ds.ci_runs@ + older_runs,
        forall|i: int|
            0 <= i < older_prs.len() ==> (#[trigger] older_prs[i]).created_at < window_start(
                now,
                lookback,
            ),
        forall|i: int|
            0 <= i < older_deps.len() ==> (#[trigger] older_deps[i]).created_at < window_start(
                now,
                lookback,
            ),
        forall|i: int|
            0 <= i < older_runs.len() ==> (#[trigger] older_runs[i]).created_at < window_start(
                now,
                lookback,
            ),
    ensures
        metrics_of(m, more, lookback, now),
{
    let since = window_start(now, lookback);
    let prs = ds.prs@;
    let deps = ds.deployments@;
    let runs = ds.ci_runs@;
    // pull requests
    lemma_gather_append_none(prs, older_prs, |p: PullRequest| main_merge_time(p, since));
    lemma_gather_append_none(prs, older_prs, |p: PullRequest| merge_span(p, since));
    lemma_gather_append_none(prs, older_prs, |p: PullRequest| review_span(p, since));
    lemma_gather_append_none(prs, older_prs, |p: PullRequest| pr_size(p, since));
    lemma_gather_append_none(prs, older_prs, |p: PullRequest| merge_event(p, since));
    lemma_gather_append_none(prs, older_prs, |p: PullRequest| review_event(p, since));
    // deployments
    assert(has_deployments(deps + older_deps, since) == has_deployments(deps, since)) by {
        if has_deployments(deps + older_deps, since) {
            let i = choose|i: int|
                0 <= i < (deps + older_deps).len() && #[trigger] (deps + older_deps)[i].created_at
                    >= since;
            if i >= deps.len() {
                assert((deps + older_deps)[i] == older_deps[i - deps.len()]);
            } else {
                assert((deps + older_deps)[i] == deps[i]);
            }
        }
        if has_deployments(deps, since) {
            let i = choose|i: int| 0 <= i < deps.len() && #[trigger] deps[i].created_at >= since;
            assert((deps + older_deps)[i] == deps[i]);
        }
    }
    lemma_gather_append_none(deps, older_deps, |d: Deployment| success_time(d, since));
    lemma_count_where_append_false(deps, older_deps, |d: Deployment| is_success_in(d, since));
    lemma_count_where_append_false(deps, older_deps, |d: Deployment| is_failure_in(d, since));
    lemma_recoveries_append_old(deps, older_deps, since);
    assert forall|age: int|
        #[trigger] failures_at_age(deps + older_deps, since, now, age) == failures_at_age(
            deps,
            since,
            now,
            age,
        ) && outcomes_at_age(deps + older_deps, since, now, age) == outcomes_at_age(
            deps,
            since,
            now,
            age,
        ) by {
        lemma_count_where_append_false(
            deps,
            older_deps,
            |d: Deployment| is_failure_in(d, since) && age_days(now, d.created_at) == age,
        );
        lemma_count_where_append_false(
            deps,
            older_deps,
            |d: Deployment|
                (is_success_in(d, since) || is_failure_in(d, since)) && age_days(now, d.created_at)
                    == age,
        );
    }
    assert(daily_failure_rates(deps + older_deps, since, now, lookback as int)
        =~= daily_failure_rates(deps, since, now, lookback as int));
    // workflow runs
    lemma_count_where_append_false(runs, older_runs, |r: WorkflowRun| run_in(r, since));
    lemma_count_where_append_false(
        runs,
        older_runs,
        |r: WorkflowRun| run_in(r, since) && r.is_pass(),
    );
    assert forall|age: int|
        #[trigger] runs_at_age(runs + older_runs, since, now, age) == runs_at_age(
            runs,
            since,
            now,
            age,
        ) && passes_at_age(runs + older_runs, since, now, age) == passes_at_age(
            runs,
            since,
            now,
            age,
        ) by {
        lemma_count_where_append_false(
            runs,
            older_runs,
            |r: WorkflowRun| run_in(r, since) && age_days(now, r.created_at) == age,
        );
        lemma_count_where_append_false(
            runs,
            older_runs,
            |r: WorkflowRun| run_in(r, since) && age_days(now, r.created_at) == age && r.is_pass(),
        );
    }
    assert(daily_pass_rates(runs + older_runs, since, now, lookback as int) =~= daily_pass_rates(
        runs,
        since,
        now,
        lookback as int,
    ));
}

// ── What each metric measures ───────────────────────────────────────────────
/// `d` is banded by thresholds given in hours of its median: Elite up to
/// `elite` hours, High up to `high`, Medium up to `medium`, Low beyond.
pub open spec fn banded_in_hours(d: DurationMetric, elite: int, high: int, medium: int) -> bool {
    let x = d.median_minutes_x2;  // twice the median in minutes: 120 per hour
    d.level != DoraLevel::NoData ==> {
        &&& x <= 120 * elite ==> d.level == DoraLevel::Elite
        &&& 120 * elite < x <= 120 * high ==> d.level == DoraLevel::High
        &&& 120 * high < x <= 120 * medium ==> d.level == DoraLevel::Medium
        &&& 120 * medium < x ==> d.level == DoraLevel::Low
    }
}

/// The duration metrics follow the DORA bands: lead time for changes is Elite
/// up to a day, High up to a week, Medium up to 30 days; PR cycle time up to
/// 24, 72 and 240 hours; review pickup up to 4, 24 and 72 hours; time to
/// restore up to an hour, a day and a week.
pub proof fn law_duration_bands(m: DoraMetrics, ds: Dataset, lookback: u32, now: Instant)
    requires
        metrics_of(m, ds, lookback, now),
    ensures
        banded_in_hours(m.lead_time, 24, 168, 720),
        banded_in_hours(m.pr_cycle_time, 24, 72, 240),
        banded_in_hours(m.review_turnaround, 4, 24, 72),
        banded_in_hours(m.mean_time_to_recovery, 1, 24, 168),
{
}

/// Deployments in the window whose latest status is a failure.
pub open spec fn failed_in_window(deps: Seq<Deployment>, since: int) -> nat {
    count_where(
        deps,
        |d: Deployment| d.created_at >= since && d.status == DeploymentStatus::Failure,
    )
}

/// Deployments in the window whose latest status is a success or a failure.
pub open spec fn decided_in_window(deps: Seq<Deployment>, since: int) -> nat {
    count_where(
        deps,
        |d: Deployment|
            d.created_at >= since && (d.status == DeploymentStatus::Success || d.status
                == DeploymentStatus::Failure),
    )
}

/// The change failure rate is the number of deployments in the window that
/// failed over the number that succeeded or failed; deployments pending, in
/// progress or in another state count in neither.  With none that succeeded
/// or failed it is `NoData`.
pub proof fn law_failure_rate_counts(m: DoraMetrics, ds: Dataset, lookback: u32, now: Instant)
    requires
        metrics_of(m, ds, lookback, now),
    ensures
        decided_in_window(ds.deployments@, window_start(now, lookback)) == 0
            ==> m.change_failure_rate.level == DoraLevel::NoData && m.change_failure_rate.rate
            == (Ratio { num: 0, den: 1 }),
        decided_in_window(ds.deployments@, window_start(now, lookback)) > 0
            ==> m.change_failure_rate.rate == (Ratio {
            num: failed_in_window(ds.deployments@, window_start(now, lookback)) as usize,
            den: decided_in_window(ds.deployments@, window_start(now, lookback)) as usize,
        }),
{
    let since = window_start(now, lookback);
    let deps = ds.deployments@;
    let fail = |d: Deployment| d.created_at >= since && d.status == DeploymentStatus::Failure;
    let ok = |d: Deployment| d.created_at >= since && d.status == DeploymentStatus::Success;
    let decided = |d: Deployment|
        d.created_at >= since && (d.status == DeploymentStatus::Success || d.status
            == DeploymentStatus::Failure);
    lemma_count_where_ext(deps, fail, |d: Deployment| is_failure_in(d, since));
    lemma_count_where_ext(deps, ok, |d: Deployment| is_success_in(d, since));
    lemma_count_where_or(deps, ok, fail, decided);
    if !has_deployments(deps, since) {
        assert forall|i: int| 0 <= i < deps.len() implies !decided(#[trigger] deps[i]) by {
            assert(!(deps[i].created_at >= since));
        }
        lemma_count_where_none(deps, decided);
    }
}

/// Pull requests opened in the window, merged, into a branch named exactly
/// `main` or `master`.
pub open spec fn merged_into_main(prs: Seq<PullRequest>, since: int) -> nat {
    count_where(
        prs,
        |p: PullRequest|
            p.created_at >= since && p.merged_at is Some && (p.base_ref@ == "main"@ || p.base_ref@
                == "master"@),
    )
}

/// Without a deployment in the window, deployment frequency counts one event
/// per pull request opened in the window and merged into `main` or `master`.
pub proof fn law_merges_into_main_are_deployments(
    m: DoraMetrics,
    ds: Dataset,
    lookback: u32,
    now: Instant,
)
    requires
        metrics_of(m, ds, lookback, now),
        forall|i: int|
            0 <= i < ds.deployments@.len() ==> (#[trigger] ds.deployments@[i]).created_at
                < window_start(now, lookback),
    ensures
        m.deployment_frequency.events == merged_into_main(ds.prs@, window_start(now, lookback)),
{
    let since = window_start(now, lookback);
    assert(!has_deployments(ds.deployments@, since));
    lemma_gather_len_count(
        ds.prs@,
        |p: PullRequest| main_merge_time(p, since),
        |p: PullRequest|
            p.created_at >= since && p.merged_at is Some && (p.base_ref@ == "main"@ || p.base_ref@
                == "master"@),
    );
}

/// Each repository's CI pass rate is its passing runs over its runs created in
/// the window (1 when it has none): runs created before the window, or of
/// another repository, do not count.
pub proof fn law_repo_ci_rate_counts_window_runs(
    r: Seq<RepoStats>,
    ds: Dataset,
    lookback: u32,
    now: Instant,
    i: int,
)
    requires
        per_repo_of(r, ds, lookback, now),
        0 <= i < r.len(),
    ensures
        ({
            let since = window_start(now, lookback);
            let runs = count_where(
                ds.ci_runs@,
                |w: WorkflowRun| w.repo@ == r[i].repo@ && w.created_at >= since,
            );
            let passes = count_where(
                ds.ci_runs@,
                |w: WorkflowRun|
                    w.repo@ == r[i].repo@ && w.created_at >= since && (w.conclusion matches Some(
                        c,
                    ) && c@ == "success"@),
            );
            r[i].ci_pass_rate == if runs == 0 {
                Ratio { num: 1, den: 1 }
            } else {
                Ratio { num: passes as usize, den: runs as usize }
            }
        }),
{
    let since = window_start(now, lookback);
    let name = group_at_rank(ds.prs@, GroupBy::Repo, since, i);
    assert(repo_stats_of(r[i], ds, name, since));
    lemma_count_where_ext(
        ds.ci_runs@,
        |w: WorkflowRun| w.repo@ == r[i].repo@ && w.created_at >= since,
        |w: WorkflowRun| run_of_repo(w, name, since),
    );
    lemma_count_where_ext(
        ds.ci_runs@,
        |w: WorkflowRun|
            w.repo@ == r[i].repo@ && w.created_at >= since && (w.conclusion matches Some(c) && c@
                == "success"@),
        |w: WorkflowRun| run_of_repo(w, name, since) && w.is_pass(),
    );
}

/// A later successful deployment of the same repository, created in the
/// window, restores service after failure `f`.
pub open spec fn restores(d: Deployment, f: Deployment, since: int) -> bool {
    &&& d.status == DeploymentStatus::Success
    &&& d.created_at >= since
    &&& d.repo@ == f.repo@
    &&& d.created_at > f.created_at
}

/// The recovery of a failed deployment is the earliest deployment that
/// restores service after it, whatever the order of the list: none exactly
/// when there is no such deployment, and otherwise the creation instant of one
/// of them that no other precedes.
pub proof fn law_recovery_is_the_earliest_restoring_deployment(
    deps: Seq<Deployment>,
    since: int,
    f: Deployment,
)
    ensures
        earliest_recovery(deps, since, f) is None <==> forall|i: int|
            0 <= i < deps.len() ==> !restores(#[trigger] deps[i], f, since),
        earliest_recovery(deps, since, f) matches Some(t) ==> {
            &&& exists|i: int|
                0 <= i < deps.len() && restores(#[trigger] deps[i], f, since) && deps[i].created_at
                    == t
            &&& forall|i: int|
                0 <= i < deps.len() && restores(#[trigger] deps[i], f, since) ==> t
                    <= deps[i].created_at
        },
    decreases deps.len(),
{
    if deps.len() > 0 {
        let rest = deps.drop_last();
        let n = deps.len() - 1;
        law_recovery_is_the_earliest_restoring_deployment(rest, since, f);
        assert forall|i: int| 0 <= i < n implies #[trigger] rest[i] == deps[i] by {}
        assert(restores(deps[n], f, since) == recovers_from(deps[n], since, f));
        if earliest_recovery(deps, since, f) is None {
            assert forall|i: int| 0 <= i < deps.len() implies !restores(#[trigger] deps[i], f, since) by {
                if i < n {
                    assert(!restores(rest[i], f, since));
                }
            }
        }
        match earliest_recovery(deps, since, f) {
            Some(t) => {
                if restores(deps[n], f, since) && (earliest_recovery(rest, since, f) is None
                    || deps[n].created_at < earliest_recovery(rest, since, f)->0) {
                    assert(t == deps[n].created_at);
                } else {
                    let j = choose|j: int|
                        0 <= j < rest.len() && restores(#[trigger] rest[j], f, since)
                            && rest[j].created_at == t;
                    assert(deps[j] == rest[j]);
                }
                assert forall|i: int|
                    0 <= i < deps.len() && restores(#[trigger] deps[i], f, since) implies t
                    <= deps[i].created_at by {
                    if i < n {
                        assert(restores(rest[i], f, since));
                    }
                }
            },
            None => {},
        }
    }
}

/// The rate bands, as percentages: CI pass rate Elite from 95 %, High from
/// 85 %, Medium from 70 %; change failure rate Elite up to 5 %, High up to
/// 10 %, Medium up to 15 %; deployment frequency Elite from one a day, High
/// from one a week, Medium from one in 30 days.
pub proof fn law_rate_bands(m: DoraMetrics, ds: Dataset, lookback: u32, now: Instant)
    requires
        metrics_of(m, ds, lookback, now),
    ensures
        ({
            let r = m.ci_pass_rate.rate;
            m.ci_pass_rate.level != DoraLevel::NoData ==> {
                &&& 100 * r.num >= 95 * r.den ==> m.ci_pass_rate.level == DoraLevel::Elite
                &&& 85 * r.den <= 100 * r.num < 95 * r.den ==> m.ci_pass_rate.level
                    == DoraLevel::High
                &&& 70 * r.den <= 100 * r.num < 85 * r.den ==> m.ci_pass_rate.level
                    == DoraLevel::Medium
                &&& 100 * r.num < 70 * r.den ==> m.ci_pass_rate.level == DoraLevel::Low
            }
        }),
        ({
            let r = m.change_failure_rate.rate;
            m.change_failure_rate.level != DoraLevel::NoData ==> {
                &&& 100 * r.num <= 5 * r.den ==> m.change_failure_rate.level == DoraLevel::Elite
                &&& 5 * r.den < 100 * r.num <= 10 * r.den ==> m.change_failure_rate.level
                    == DoraLevel::High
                &&& 10 * r.den < 100 * r.num <= 15 * r.den ==> m.change_failure_rate.level
                    == DoraLevel::Medium
                &&& 15 * r.den < 100 * r.num ==> m.change_failure_rate.level == DoraLevel::Low
            }
        }),
        ({
            let f = m.deployment_frequency;
            f.level != DoraLevel::NoData ==> {
                &&& f.events >= f.window_days ==> f.level == DoraLevel::Elite
                &&& f.events < f.window_days <= 7 * f.events ==> f.level == DoraLevel::High
                &&& 7 * f.events < f.window_days <= 30 * f.events ==> f.level
                    == DoraLevel::Medium
                &&& 30 * f.events < f.window_days ==> f.level == DoraLevel::Low
            }
        }),
{
    let since = window_start(now, lookback);
    let runs = ds.ci_runs@;
    let deps = ds.deployments@;
    assert(ds.ci_runs.len() == runs.len());
    assert(ds.deployments.len() == deps.len());
    lemma_count_where_mono(
        runs,
        |r: WorkflowRun| run_in(r, since) && r.is_pass(),
        |r: WorkflowRun| run_in(r, since),
    );
    lemma_count_where_le(runs, |r: WorkflowRun| run_in(r, since));
    crate::seqs::lemma_count_where_disjoint(
        deps,
        |d: Deployment| is_success_in(d, since),
        |d: Deployment| is_failure_in(d, since),
    );
}

/// Workflow runs created in the window.
pub open spec fn runs_in_window(runs: Seq<WorkflowRun>, since: int) -> nat {
    count_where(runs, |w: WorkflowRun| w.created_at >= since)
}

/// Workflow runs created in the window that concluded with `success`.
pub open spec fn successes_in_window(runs: Seq<WorkflowRun>, since: int) -> nat {
    count_where(
        runs,
        |w: WorkflowRun| w.created_at >= since && (w.conclusion matches Some(c) && c@ == "success"@),
    )
}

/// The CI pass rate is the runs created in the window that concluded with
/// `success` over all runs created in the window; `NoData` without runs.
pub proof fn law_ci_rate_counts(m: DoraMetrics, ds: Dataset, lookback: u32, now: Instant)
    requires
        metrics_of(m, ds, lookback, now),
    ensures
        runs_in_window(ds.ci_runs@, window_start(now, lookback)) == 0 ==> m.ci_pass_rate.level
            == DoraLevel::NoData,
        runs_in_window(ds.ci_runs@, window_start(now, lookback)) > 0 ==> m.ci_pass_rate.rate == (
        Ratio {
            num: successes_in_window(ds.ci_runs@, window_start(now, lookback)) as usize,
            den: runs_in_window(ds.ci_runs@, window_start(now, lookback)) as usize,
        }),
{
    let since = window_start(now, lookback);
    lemma_count_where_ext(
        ds.ci_runs@,
        |w: WorkflowRun| w.created_at >= since,
        |r: WorkflowRun| run_in(r, since),
    );
    lemma_count_where_ext(
        ds.ci_runs@,
        |w: WorkflowRun| w.created_at >= since && (w.conclusion matches Some(c) && c@ == "success"@),
        |r: WorkflowRun| run_in(r, since) && r.is_pass(),
    );
}

/// With a deployment in the window, deployment frequency counts one event per
/// deployment created in the window whose latest status is a success.
pub proof fn law_successful_deployments_are_events(
    m: DoraMetrics,
    ds: Dataset,
    lookback: u32,
    now: Instant,
    k: int,
)
    requires
        metrics_of(m, ds, lookback, now),
        0 <= k < ds.deployments@.len(),
        ds.deployments@[k].created_at >= window_start(now, lookback),
    ensures
        m.deployment_frequency.events == count_where(
            ds.deployments@,
            |d: Deployment|
                d.created_at >= window_start(now, lookback) && d.status
                    == DeploymentStatus::Success,
        ),
{
    let since = window_start(now, lookback);
    assert(has_deployments(ds.deployments@, since));
    lemma_gather_len_count(
        ds.deployments@,
        |d: Deployment| success_time(d, since),
        |d: Deployment| d.created_at >= since && d.status == DeploymentStatus::Success,
    );
}

/// The median of measured durations splits them in halves: at most half of
/// them are shorter than the median, and at most half longer.
pub proof fn law_median_splits_in_halves(
    m: DurationMetric,
    mins: Seq<i64>,
    history: Seq<i64>,
    elite: int,
    high: int,
    medium: int,
)
    requires
        summarizes(m, mins, history, elite, high, medium),
        mins.len() > 0,
    ensures
        2 * count_where(mins, |v: i64| 2 * v < m.median_minutes_x2) <= mins.len(),
        2 * count_where(mins, |v: i64| 2 * v > m.median_minutes_x2) <= mins.len(),
{
    let x = m.median_minutes_x2;
    let lt = |v: i64| 2 * v < x;
    let gt = |v: i64| 2 * v > x;
    let s = ascending(mins);
    lemma_ascending(mins);
    lemma_count_where_same_multiset(mins, s, lt);
    lemma_count_where_same_multiset(mins, s, gt);
    let n = s.len() as int;
    let h = n / 2;
    if n % 2 == 1 {
        assert forall|i: int| h <= i < n implies !lt(#[trigger] s[i]) by {
            lemma_sorted_le(s, h, i);
        }
        lemma_count_where_not_from(s, lt, h);
        assert forall|i: int| 0 <= i < h + 1 implies !gt(#[trigger] s[i]) by {
            lemma_sorted_le(s, i, h);
        }
        lemma_count_where_not_before(s, gt, h + 1);
    } else {
        lemma_sorted_le(s, h - 1, h);
        assert forall|i: int| h <= i < n implies !lt(#[trigger] s[i]) by {
            lemma_sorted_le(s, h, i);
        }
        lemma_count_where_not_from(s, lt, h);
        assert forall|i: int| 0 <= i < h implies !gt(#[trigger] s[i]) by {
            lemma_sorted_le(s, i, h - 1);
        }
        lemma_count_where_not_before(s, gt, h);
    }
}

/// The recovery of a failed deployment does not depend on the order in which
/// the deployments are listed.
pub proof fn law_recovery_ignores_order(
    deps: Seq<Deployment>,
    other: Seq<Deployment>,
    since: int,
    f: Deployment,
)
    requires
        deps.to_multiset() == other.to_multiset(),
    ensures
        earliest_recovery(deps, since, f) == earliest_recovery(other, since, f),
{
    law_recovery_is_the_earliest_restoring_deployment(deps, since, f);
    law_recovery_is_the_earliest_restoring_deployment(other, since, f);
    assert forall|i: int| #![trigger deps[i]] 0 <= i < deps.len() implies exists|j: int|
        0 <= j < other.len() && #[trigger] other[j] == deps[i] by {
        vstd::seq_lib::to_multiset_contains(deps, deps[i]);
        vstd::seq_lib::to_multiset_contains(other, deps[i]);
        assert(deps.contains(deps[i]));
    }
    assert forall|j: int| #![trigger other[j]] 0 <= j < other.len() implies exists|i: int|
        0 <= i < deps.len() && #[trigger] deps[i] == other[j] by {
        vstd::seq_lib::to_multiset_contains(deps, other[j]);
        vstd::seq_lib::to_multiset_contains(other, other[j]);
        assert(other.contains(other[j]));
    }
    match (earliest_recovery(deps, since, f), earliest_recovery(other, since, f)) {
        (Some(a), Some(b)) => {
            let i = choose|i: int|
                0 <= i < deps.len() && restores(#[trigger] deps[i], f, since) && deps[i].created_at
                    == a;
            let j = choose|j: int|
                0 <= j < other.len() && restores(#[trigger] other[j], f, since)
                    && other[j].created_at == b;
            let j2 = choose|j2: int| 0 <= j2 < other.len() && #[trigger] other[j2] == deps[i];
            let i2 = choose|i2: int| 0 <= i2 < deps.len() && #[trigger] deps[i2] == other[j];
            assert(restores(other[j2], f, since));
            assert(restores(deps[i2], f, since));
        },
        (Some(a), None) => {
            let i = choose|i: int|
                0 <= i < deps.len() && restores(#[trigger] deps[i], f, since) && deps[i].created_at
                    == a;
            let j2 = choose|j2: int| 0 <= j2 < other.len() && #[trigger] other[j2] == deps[i];
            assert(!restores(other[j2], f, since));
        },
        (None, Some(b)) => {
            let j = choose|j: int|
                0 <= j < other.len() && restores(#[trigger] other[j], f, since)
                    && other[j].created_at == b;
            let i2 = choose|i2: int| 0 <= i2 < deps.len() && #[trigger] deps[i2] == other[j];
            assert(!restores(deps[i2], f, since));
        },
        (None, None) => {},
    }
}

} // verus!
