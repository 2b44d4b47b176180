//! Per-repository and per-author breakdowns of pull-request activity.
use vstd::prelude::*;

use crate::clock::{max_span_minutes, minutes_between, current_instant, valid_now, window_in_range, window_start, window_start_checked, Instant};
use crate::metrics::{merge_span, pr_size, review_span};
use crate::seqs::{
    count_where, gather, lemma_count_where_le, lemma_count_where_step, lemma_gather_step,
    lemma_total_push, total,
};
use crate::sorting::{rank_desc, ranked};
use crate::summary::{bounded_by, fraction_or};
use crate::types::{
    valid_instant, AuthorStats, Dataset, Deployment, DeploymentStatus, Mean, PullRequest, Ratio,
    RepoStats, WorkflowRun, MAX_INSTANT, MIN_INSTANT,
};

verus! {

/// Which name of a pull request groups it.
#[derive(Debug, Clone, Copy, PartialEq, Eq, Structural)]
pub enum GroupBy {
    Repo,
    Author,
}

/// The grouping name of a pull request.
pub open spec fn group_key(p: PullRequest, by: GroupBy) -> Seq<char> {
    match by {
        GroupBy::Repo => p.repo@,
        GroupBy::Author => p.author@,
    }
}

fn key_of(p: &PullRequest, by: GroupBy) -> (k: &String)
    ensures
        k@ == group_key(*p, by),
{
    match by {
        GroupBy::Repo => &p.repo,
        GroupBy::Author => &p.author,
    }
}

/// The distinct grouping names of `prs`, in order of first appearance.
pub open spec fn first_seen(prs: Seq<PullRequest>, by: GroupBy) -> Seq<Seq<char>>
    decreases prs.len(),
{
    if prs.len() == 0 {
        Seq::empty()
    } else {
        let seen = first_seen(prs.drop_last(), by);
        let k = group_key(prs.last(), by);
        if seen.contains(k) {
            seen
        } else {
            seen.push(k)
        }
    }
}

/// A pull request of group `name` opened at or after `since`.
pub open spec fn in_group(p: PullRequest, by: GroupBy, name: Seq<char>, since: int) -> bool {
    group_key(p, by) == name && p.created_at >= since
}

pub open spec fn group_pr_count(prs: Seq<PullRequest>, by: GroupBy, name: Seq<char>, since: int) -> nat {
    count_where(prs, |p: PullRequest| in_group(p, by, name, since))
}

pub open spec fn group_merged_count(
    prs: Seq<PullRequest>,
    by: GroupBy,
    name: Seq<char>,
    since: int,
) -> nat {
    count_where(prs, |p: PullRequest| in_group(p, by, name, since) && p.merged_at is Some)
}

/// Merge times (minutes) of the group's pull requests in the window.
pub open spec fn group_merge_spans(
    prs: Seq<PullRequest>,
    by: GroupBy,
    name: Seq<char>,
    since: int,
) -> Seq<i64> {
    group_measures(prs, by, name, Measure::Merge, since)
}

/// Times to first review (minutes) of the group's pull requests in the window.
pub open spec fn group_review_spans(
    prs: Seq<PullRequest>,
    by: GroupBy,
    name: Seq<char>,
    since: int,
) -> Seq<i64> {
    group_measures(prs, by, name, Measure::Review, since)
}

/// Sizes (lines) of the group's pull requests in the window.
pub open spec fn group_sizes(prs: Seq<PullRequest>, by: GroupBy, name: Seq<char>, since: int) -> Seq<
    i64,
> {
    group_measures(prs, by, name, Measure::Size, since)
}

pub open spec fn run_of_repo(r: WorkflowRun, name: Seq<char>, since: int) -> bool {
    r.repo@ == name && r.created_at >= since
}

/// `r` describes repository `name` of `ds` over the window starting at `since`.
pub open spec fn repo_stats_of(r: RepoStats, ds: Dataset, name: Seq<char>, since: int) -> bool {
    let prs = ds.prs@;
    let runs = ds.ci_runs@;
    let merges = group_merge_spans(prs, GroupBy::Repo, name, since);
    let reviews = group_review_spans(prs, GroupBy::Repo, name, since);
    &&& r.repo@ == name
    &&& r.pr_count == group_pr_count(prs, GroupBy::Repo, name, since)
    &&& r.merged_count == group_merged_count(prs, GroupBy::Repo, name, since)
    &&& r.avg_cycle_minutes.total == total(merges)
    &&& r.avg_cycle_minutes.count == r.merged_count
    &&& r.avg_review_minutes.total == total(reviews)
    &&& r.avg_review_minutes.count == reviews.len()
    &&& r.ci_pass_rate == fraction_or(
        count_where(runs, |w: WorkflowRun| run_of_repo(w, name, since) && w.is_pass()),
        count_where(runs, |w: WorkflowRun| run_of_repo(w, name, since)),
        Ratio { num: 1, den: 1 },
    )
    &&& r.deploy_count == count_where(
        ds.deployments@,
        |d: Deployment|
            d.repo@ == name && d.created_at >= since && d.status == DeploymentStatus::Success,
    )
}

/// `a` describes author `name` of `ds` over the window starting at `since`.
pub open spec fn author_stats_of(a: AuthorStats, ds: Dataset, name: Seq<char>, since: int) -> bool {
    let prs = ds.prs@;
    &&& a.author@ == name
    &&& a.pr_count == group_pr_count(prs, GroupBy::Author, name, since)
    &&& a.merged_count == group_merged_count(prs, GroupBy::Author, name, since)
    &&& a.avg_cycle_minutes.total == total(group_merge_spans(prs, GroupBy::Author, name, since))
    &&& a.avg_cycle_minutes.count == a.merged_count
    &&& a.avg_pr_size.total == total(group_sizes(prs, GroupBy::Author, name, since))
    &&& a.avg_pr_size.count == a.pr_count
    &&& a.reviews_given == 0
}

/// Ranking keys: the number of pull requests of each group in the window.
pub open spec fn group_keys(prs: Seq<PullRequest>, by: GroupBy, since: int) -> Seq<i128> {
    first_seen(prs, by).map_values(
        |name: Seq<char>| group_pr_count(prs, by, name, since) as i128,
    )
}

/// Position in `first_seen` of the group at rank `i`.
pub open spec fn group_at_rank(prs: Seq<PullRequest>, by: GroupBy, since: int, i: int) -> Seq<char> {
    first_seen(prs, by)[ranked(group_keys(prs, by, since))[i] as int]
}

/// `r` holds one entry per repository that has a pull request (in the window
/// or not), by descending number of pull requests in the window, repositories
/// with equal numbers in order of first appearance.
pub open spec fn per_repo_of(r: Seq<RepoStats>, ds: Dataset, lookback: u32, now: Instant) -> bool {
    let since = window_start(now, lookback);
    &&& r.len() == first_seen(ds.prs@, GroupBy::Repo).len()
    &&& forall|i: int|
        0 <= i < r.len() ==> repo_stats_of(
            #[trigger] r[i],
            ds,
            group_at_rank(ds.prs@, GroupBy::Repo, since, i),
            since,
        )
}

/// `a` holds one entry per author of a pull request, ordered as `per_repo_of`.
pub open spec fn per_author_of(a: Seq<AuthorStats>, ds: Dataset, lookback: u32, now: Instant) -> bool {
    let since = window_start(now, lookback);
    &&& a.len() == first_seen(ds.prs@, GroupBy::Author).len()
    &&& forall|i: int|
        0 <= i < a.len() ==> author_stats_of(
            #[trigger] a[i],
            ds,
            group_at_rank(ds.prs@, GroupBy::Author, since, i),
            since,
        )
}

// ── Building blocks ──────────────────────────────────────────────────────────
pub open spec fn names_view(v: Seq<String>) -> Seq<Seq<char>> {
    v.map_values(|s: String| s@)
}

/// Whether `name` is among `names`.
fn contains_name(names: &Vec<String>, name: &String) -> (b: bool)
    ensures
        b == names_view(names@).contains(name@),
{
    let mut i: usize = 0;
    while i < names.len()
        invariant
            i <= names@.len(),
            forall|k: int| 0 <= k < i ==> names@[k]@ != name@,
        decreases names@.len() - i,
    {
        if names[i] == *name {
            proof {
                assert(names_view(names@)[i as int] == name@);
            }
            return true;
        }
        i = i + 1;
    }
    proof {
        if names_view(names@).contains(name@) {
            let k = choose|k: int| 0 <= k < names_view(names@).len() && names_view(names@)[k] == name@;
            assert(names@[k]@ == name@);
        }
    }
    false
}

/// The distinct grouping names of `prs` in order of first appearance.
fn distinct_names(prs: &Vec<PullRequest>, by: GroupBy) -> (names: Vec<String>)
    ensures
        names_view(names@) == first_seen(prs@, by),
{
    let mut names: Vec<String> = Vec::new();
    let mut i: usize = 0;
    while i < prs.len()
        invariant
            i <= prs@.len(),
            names_view(names@) == first_seen(prs@.take(i as int), by),
        decreases prs@.len() - i,
    {
        let k = key_of(&prs[i], by);
        proof {
            assert(prs@.take(i + 1).drop_last() =~= prs@.take(i as int));
        }
        if !contains_name(&names, k) {
            let ghost before = names@;
            names.push(k.clone());
            proof {
                assert(names_view(names@) =~= names_view(before).push(k@));
            }
        }
        i = i + 1;
    }
    proof {
        assert(prs@.take(prs@.len() as int) =~= prs@);
    }
    names
}

/// Number of pull requests of group `name` in the window.
fn count_group(prs: &Vec<PullRequest>, by: GroupBy, name: &String, since: i64) -> (c: usize)
    ensures
        c == group_pr_count(prs@, by, name@, since as int),
{
    let mut c: usize = 0;
    let mut i: usize = 0;
    let ghost f = |p: PullRequest| in_group(p, by, name@, since as int);
    while i < prs.len()
        invariant
            i <= prs@.len(),
            f == (|p: PullRequest| in_group(p, by, name@, since as int)),
            c == count_where(prs@.take(i as int), f),
            c <= i,
        decreases prs@.len() - i,
    {
        let p = &prs[i];
        proof {
            lemma_count_where_step(prs@, f, i as int);
        }
        if *key_of(p, by) == *name && p.created_at >= since {
            c = c + 1;
        }
        i = i + 1;
    }
    proof {
        assert(prs@.take(prs@.len() as int) =~= prs@);
    }
    c
}

/// Number of merged pull requests of group `name` in the window.
fn count_group_merged(prs: &Vec<PullRequest>, by: GroupBy, name: &String, since: i64) -> (c: usize)
    ensures
        c == group_merged_count(prs@, by, name@, since as int),
{
    let mut c: usize = 0;
    let mut i: usize = 0;
    let ghost f = |p: PullRequest| in_group(p, by, name@, since as int) && p.merged_at is Some;
    while i < prs.len()
        invariant
            i <= prs@.len(),
            f == (|p: PullRequest| in_group(p, by, name@, since as int) && p.merged_at is Some),
            c == count_where(prs@.take(i as int), f),
            c <= i,
        decreases prs@.len() - i,
    {
        let p = &prs[i];
        proof {
            lemma_count_where_step(prs@, f, i as int);
        }
        if *key_of(p, by) == *name && p.created_at >= since && p.merged_at.is_some() {
            c = c + 1;
        }
        i = i + 1;
    }
    proof {
        assert(prs@.take(prs@.len() as int) =~= prs@);
    }
    c
}

/// Which per-pull-request value is summed.
#[derive(Debug, Clone, Copy, PartialEq, Eq, Structural)]
pub enum Measure {
    Merge,
    Review,
    Size,
}

pub open spec fn measure_of(p: PullRequest, m: Measure, since: int) -> Option<i64> {
    match m {
        Measure::Merge => merge_span(p, since),
        Measure::Review => review_span(p, since),
        Measure::Size => pr_size(p, since),
    }
}

/// The measured values of the group's pull requests in the window.
pub open spec fn group_measures(
    prs: Seq<PullRequest>,
    by: GroupBy,
    name: Seq<char>,
    m: Measure,
    since: int,
) -> Seq<i64> {
    gather(
        prs,
        |p: PullRequest|
            if group_key(p, by) == name {
                measure_of(p, m, since)
            } else {
                None
            },
    )
}

/// `|total(s)|` is at most `len * bound` when each element is within `bound`.
pub proof fn lemma_total_bounded(s: Seq<i64>, bound: int)
    requires
        bound >= 0,
        bounded_by(s, bound),
    ensures
        -(s.len() * bound) <= total(s) <= s.len() * bound,
    decreases s.len(),
{
    if s.len() > 0 {
        let d = s.drop_last();
        assert(bounded_by(d, bound)) by {
            assert forall|k: int| 0 <= k < d.len() implies -bound <= #[trigger] d[k] <= bound by {
                assert(d[k] == s[k]);
            }
        }
        lemma_total_bounded(d, bound);
        assert(-bound <= s[s.len() - 1] <= bound);
        assert((d.len() + 1) * bound == d.len() * bound + bound) by (nonlinear_arith);
    }
}

/// Sum and number of the measured values of group `name` in the window.
fn sum_group(prs: &Vec<PullRequest>, by: GroupBy, name: &String, m: Measure, since: i64) -> (r: (
    i128,
    usize,
))
    requires
        forall|k: int| 0 <= k < prs@.len() ==> (#[trigger] prs@[k]).wf(),
    ensures
        r.0 == total(group_measures(prs@, by, name@, m, since as int)),
        r.1 == group_measures(prs@, by, name@, m, since as int).len(),
{
    let ghost f = |p: PullRequest|
        if group_key(p, by) == name@ {
            measure_of(p, m, since as int)
        } else {
            None
        };
    let mut sum: i128 = 0;
    let mut n: usize = 0;
    let mut i: usize = 0;
    while i < prs.len()
        invariant
            i <= prs@.len(),
            forall|k: int| 0 <= k < prs@.len() ==> (#[trigger] prs@[k]).wf(),
            f == (|p: PullRequest|
                if group_key(p, by) == name@ {
                    measure_of(p, m, since as int)
                } else {
                    None
                }),
            bounded_by(gather(prs@.take(i as int), f), max_span_minutes()),
            sum == total(gather(prs@.take(i as int), f)),
            n == gather(prs@.take(i as int), f).len(),
            n <= i,
        decreases prs@.len() - i,
    {
        let p = &prs[i];
        let ghost before = gather(prs@.take(i as int), f);
        proof {
            lemma_gather_step(prs@, f, i as int);
            assert(prs@[i as int].wf());
            lemma_total_bounded(before, max_span_minutes());
            assert(before.len() * max_span_minutes() <= usize::MAX * max_span_minutes())
                by (nonlinear_arith)
                requires
                    before.len() <= usize::MAX,
            ;
        }
        let v: Option<i64> = if *key_of(p, by) == *name && p.created_at >= since {
            match m {
                Measure::Merge => match p.merged_at {
                    Some(t) => Some(minutes_between(t, p.created_at)),
                    None => None,
                },
                Measure::Review => match p.first_review_at {
                    Some(t) => Some(minutes_between(t, p.created_at)),
                    None => None,
                },
                Measure::Size => Some(p.additions as i64 + p.deletions as i64),
            }
        } else {
            None
        };
        if let Some(x) = v {
            sum = sum + x as i128;
            n = n + 1;
            proof {
                lemma_total_push(before, x);
                let after = before.push(x);
                assert forall|k: int| 0 <= k < after.len() implies -max_span_minutes() <= #[trigger] after[k]
                    <= max_span_minutes() by {
                    if k < before.len() {
                        assert(after[k] == before[k]);
                    }
                }
            }
        }
        i = i + 1;
    }
    proof {
        assert(prs@.take(prs@.len() as int) =~= prs@);
    }
    (sum, n)
}

/// CI runs of repository `name` in the window, and how many of them passed.
fn count_repo_runs(runs: &Vec<WorkflowRun>, name: &String, since: i64) -> (r: (usize, usize))
    ensures
        r.0 == count_where(runs@, |w: WorkflowRun| run_of_repo(w, name@, since as int)),
        r.1 == count_where(
            runs@,
            |w: WorkflowRun| run_of_repo(w, name@, since as int) && w.is_pass(),
        ),
{
    let ghost fa = |w: WorkflowRun| run_of_repo(w, name@, since as int);
    let ghost fp = |w: WorkflowRun| run_of_repo(w, name@, since as int) && w.is_pass();
    let mut all: usize = 0;
    let mut passed: usize = 0;
    let mut i: usize = 0;
    while i < runs.len()
        invariant
            i <= runs@.len(),
            fa == (|w: WorkflowRun| run_of_repo(w, name@, since as int)),
            fp == (|w: WorkflowRun| run_of_repo(w, name@, since as int) && w.is_pass()),
            all == count_where(runs@.take(i as int), fa),
            passed == count_where(runs@.take(i as int), fp),
            all <= i,
            passed <= i,
        decreases runs@.len() - i,
    {
        let w = &runs[i];
        proof {
            lemma_count_where_step(runs@, fa, i as int);
            lemma_count_where_step(runs@, fp, i as int);
        }
        if w.repo == *name && w.created_at >= since {
            all = all + 1;
            if w.passed() {
                passed = passed + 1;
            }
        }
        i = i + 1;
    }
    proof {
        assert(runs@.take(runs@.len() as int) =~= runs@);
    }
    (all, passed)
}

/// Successful deployments of repository `name` in the window.
fn count_repo_deploys(deps: &Vec<Deployment>, name: &String, since: i64) -> (c: usize)
    ensures
        c == count_where(
            deps@,
            |d: Deployment|
                d.repo@ == name@ && d.created_at >= since && d.status == DeploymentStatus::Success,
        ),
{
    let ghost f = |d: Deployment|
        d.repo@ == name@ && d.created_at >= since && d.status == DeploymentStatus::Success;
    let mut c: usize = 0;
    let mut i: usize = 0;
    while i < deps.len()
        invariant
            i <= deps@.len(),
            f == (|d: Deployment|
                d.repo@ == name@ && d.created_at >= since && d.status
                    == DeploymentStatus::Success),
            c == count_where(deps@.take(i as int), f),
            c <= i,
        decreases deps@.len() - i,
    {
        let d = &deps[i];
        proof {
            lemma_count_where_step(deps@, f, i as int);
        }
        if d.repo == *name && d.created_at >= since && d.status == DeploymentStatus::Success {
            c = c + 1;
        }
        i = i + 1;
    }
    proof {
        assert(deps@.take(deps@.len() as int) =~= deps@);
    }
    c
}

/// Statistics of repository `name` over the window starting at `since`.
fn repo_stats(ds: &Dataset, name: &String, since: i64) -> (r: RepoStats)
    requires
        ds.wf(),
    ensures
        repo_stats_of(r, *ds, name@, since as int),
{
    let pr_count = count_group(&ds.prs, GroupBy::Repo, name, since);
    let merged_count = count_group_merged(&ds.prs, GroupBy::Repo, name, since);
    let (cycle_total, cycle_n) = sum_group(&ds.prs, GroupBy::Repo, name, Measure::Merge, since);
    let (review_total, review_n) = sum_group(&ds.prs, GroupBy::Repo, name, Measure::Review, since);
    proof {
        lemma_group_merges_count(ds.prs@, GroupBy::Repo, name@, since as int);
    }
    let (runs, passed) = count_repo_runs(&ds.ci_runs, name, since);
    let ci_pass_rate = if runs == 0 {
        Ratio { num: 1, den: 1 }
    } else {
        Ratio { num: passed, den: runs }
    };
    let deploy_count = count_repo_deploys(&ds.deployments, name, since);
    RepoStats {
        repo: name.clone(),
        pr_count,
        merged_count,
        avg_cycle_minutes: Mean { total: cycle_total, count: merged_count },
        avg_review_minutes: Mean { total: review_total, count: review_n },
        ci_pass_rate,
        deploy_count,
    }
}

/// The number of merge times of a group equals its number of merged pull requests.
pub proof fn lemma_group_merges_count(prs: Seq<PullRequest>, by: GroupBy, name: Seq<char>, since: int)
    ensures
        group_merge_spans(prs, by, name, since).len() == group_merged_count(prs, by, name, since),
    decreases prs.len(),
{
    if prs.len() > 0 {
        lemma_group_merges_count(prs.drop_last(), by, name, since);
    }
}

/// Statistics of author `name` over the window starting at `since`.
fn author_stats(ds: &Dataset, name: &String, since: i64) -> (a: AuthorStats)
    requires
        ds.wf(),
    ensures
        author_stats_of(a, *ds, name@, since as int),
{
    let pr_count = count_group(&ds.prs, GroupBy::Author, name, since);
    let merged_count = count_group_merged(&ds.prs, GroupBy::Author, name, since);
    let (cycle_total, _) = sum_group(&ds.prs, GroupBy::Author, name, Measure::Merge, since);
    let (size_total, _) = sum_group(&ds.prs, GroupBy::Author, name, Measure::Size, since);
    proof {
        lemma_group_merges_count(ds.prs@, GroupBy::Author, name@, since as int);
    }
    AuthorStats {
        author: name.clone(),
        pr_count,
        merged_count,
        avg_cycle_minutes: Mean { total: cycle_total, count: merged_count },
        avg_pr_size: Mean { total: size_total, count: pr_count },
        reviews_given: 0,
    }
}

/// Group names with their ranking keys and the ranked order of positions.
fn ranked_groups(prs: &Vec<PullRequest>, by: GroupBy, since: i64) -> (r: (Vec<String>, Vec<usize>))
    ensures
        names_view(r.0@) == first_seen(prs@, by),
        r.1@ == ranked(group_keys(prs@, by, since as int)),
        forall|k: int| 0 <= k < r.1@.len() ==> (#[trigger] r.1@[k]) < r.0@.len(),
        r.1@.len() == r.0@.len(),
{
    let names = distinct_names(prs, by);
    let mut keys: Vec<i128> = Vec::new();
    let mut i: usize = 0;
    while i < names.len()
        invariant
            i <= names@.len(),
            names_view(names@) == first_seen(prs@, by),
            keys@.len() == i,
            forall|k: int|
                0 <= k < i ==> #[trigger] keys@[k] == group_pr_count(
                    prs@,
                    by,
                    names@[k]@,
                    since as int,
                ) as i128,
        decreases names@.len() - i,
    {
        let c = count_group(prs, by, &names[i], since);
        keys.push(c as i128);
        i = i + 1;
    }
    proof {
        assert forall|k: int| 0 <= k < names@.len() implies names_view(names@)[k] == names@[k]@ by {}
        assert(keys@ =~= group_keys(prs@, by, since as int));
    }
    let order = rank_desc(&keys);
    proof {
        assert(keys@.len() == keys.len());
        crate::sorting::lemma_ranked(keys@);
    }
    (names, order)
}

/// Per-repository statistics over the `lookback_days` days ending at `now`,
/// busiest repository first.
pub fn per_repo_at(ds: &Dataset, lookback_days: u32, now: Instant) -> (r: Vec<RepoStats>)
    requires
        ds.wf(),
        valid_now(now),
        window_in_range(now, lookback_days),
    ensures
        per_repo_of(r@, *ds, lookback_days, now),
{
    let since: i64 = match window_start_checked(now, lookback_days) {
        Some(s) => s,
        None => 0,
    };
    let (names, order) = ranked_groups(&ds.prs, GroupBy::Repo, since);
    let mut out: Vec<RepoStats> = Vec::new();
    let mut i: usize = 0;
    while i < order.len()
        invariant
            i <= order@.len(),
            ds.wf(),
            since == window_start(now, lookback_days),
            names_view(names@) == first_seen(ds.prs@, GroupBy::Repo),
            order@ == ranked(group_keys(ds.prs@, GroupBy::Repo, since as int)),
            order@.len() == names@.len(),
            forall|k: int| 0 <= k < order@.len() ==> (#[trigger] order@[k]) < names@.len(),
            out@.len() == i,
            forall|k: int|
                0 <= k < i ==> repo_stats_of(
                    #[trigger] out@[k],
                    *ds,
                    group_at_rank(ds.prs@, GroupBy::Repo, since as int, k),
                    since as int,
                ),
        decreases order@.len() - i,
    {
        let name = &names[order[i]];
        proof {
            assert(names_view(names@)[order@[i as int] as int] == name@);
        }
        let s = repo_stats(ds, name, since);
        out.push(s);
        i = i + 1;
    }
    out
}

/// Per-author statistics over the `lookback_days` days ending at `now`, most
/// active author first.
pub fn per_author_at(ds: &Dataset, lookback_days: u32, now: Instant) -> (a: Vec<AuthorStats>)
    requires
        ds.wf(),
        valid_now(now),
        window_in_range(now, lookback_days),
    ensures
        per_author_of(a@, *ds, lookback_days, now),
{
    let since: i64 = match window_start_checked(now, lookback_days) {
        Some(s) => s,
        None => 0,
    };
    let (names, order) = ranked_groups(&ds.prs, GroupBy::Author, since);
    let mut out: Vec<AuthorStats> = Vec::new();
    let mut i: usize = 0;
    while i < order.len()
        invariant
            i <= order@.len(),
            ds.wf(),
            since == window_start(now, lookback_days),
            names_view(names@) == first_seen(ds.prs@, GroupBy::Author),
            order@ == ranked(group_keys(ds.prs@, GroupBy::Author, since as int)),
            order@.len() == names@.len(),
            forall|k: int| 0 <= k < order@.len() ==> (#[trigger] order@[k]) < names@.len(),
            out@.len() == i,
            forall|k: int|
                0 <= k < i ==> author_stats_of(
                    #[trigger] out@[k],
                    *ds,
                    group_at_rank(ds.prs@, GroupBy::Author, since as int, k),
                    since as int,
                ),
        decreases order@.len() - i,
    {
        let name = &names[order[i]];
        proof {
            assert(names_view(names@)[order@[i as int] as int] == name@);
        }
        let s = author_stats(ds, name, since);
        out.push(s);
        i = i + 1;
    }
    out
}

/// Per-repository statistics over the `lookback_days` days ending at the
/// current time; `None` when the window would start before the earliest
/// instant a timestamp can hold.
pub fn per_repo(ds: &Dataset, lookback_days: u32) -> (r: Option<Vec<RepoStats>>)
    requires
        ds.wf(),
    ensures
        exists|now: Instant|
            0 <= now.secs <= MAX_INSTANT && valid_now(now) && match r {
                Some(v) => window_in_range(now, lookback_days) && per_repo_of(
                    v@,
                    *ds,
                    lookback_days,
                    now,
                ),
                None => !window_in_range(now, lookback_days),
            },
{
    let now = current_instant();
    match window_start_checked(now, lookback_days) {
        Some(_) => Some(per_repo_at(ds, lookback_days, now)),
        None => None,
    }
}

/// Per-author statistics over the `lookback_days` days ending at the current
/// time; `None` when the window would start before the earliest instant a
/// timestamp can hold.
pub fn per_author(ds: &Dataset, lookback_days: u32) -> (a: Option<Vec<AuthorStats>>)
    requires
        ds.wf(),
    ensures
        exists|now: Instant|
            0 <= now.secs <= MAX_INSTANT && valid_now(now) && match a {
                Some(v) => window_in_range(now, lookback_days)
                    && per_author_of(v@, *ds, lookback_days, now),
                None => !window_in_range(now, lookback_days),
            },
{
    let now = current_instant();
    match window_start_checked(now, lookback_days) {
        Some(_) => Some(per_author_at(ds, lookback_days, now)),
        None => None,
    }
}

// ── Facts about groups ───────────────────────────────────────────────────────
pub proof fn lemma_first_seen_len(prs: Seq<PullRequest>, by: GroupBy)
    ensures
        first_seen(prs, by).len() <= prs.len(),
    decreases prs.len(),
{
    if prs.len() > 0 {
        lemma_first_seen_len(prs.drop_last(), by);
    }
}

/// Each name occurs once.
pub proof fn lemma_first_seen_distinct(prs: Seq<PullRequest>, by: GroupBy)
    ensures
        first_seen(prs, by).no_duplicates(),
    decreases prs.len(),
{
    if prs.len() > 0 {
        lemma_first_seen_distinct(prs.drop_last(), by);
        let seen = first_seen(prs.drop_last(), by);
        let k = group_key(prs.last(), by);
        if !seen.contains(k) {
            let t = seen.push(k);
            assert forall|i: int, j: int| 0 <= i < t.len() && 0 <= j < t.len() && i != j implies t[i]
                != t[j] by {
                if i == seen.len() as int {
                    assert(seen[j] == t[j]);
                } else if j == seen.len() as int {
                    assert(seen[i] == t[i]);
                }
            }
        }
    }
}

/// Every pull request's name is among the names, and every name is that of a
/// pull request.
pub proof fn lemma_first_seen_covers(prs: Seq<PullRequest>, by: GroupBy)
    ensures
        forall|k: int| 0 <= k < prs.len() ==> first_seen(prs, by).contains(
            group_key(#[trigger] prs[k], by),
        ),
        forall|j: int|
            0 <= j < first_seen(prs, by).len() ==> exists|k: int|
                0 <= k < prs.len() && group_key(#[trigger] prs[k], by) == #[trigger] first_seen(
                    prs,
                    by,
                )[j],
    decreases prs.len(),
{
    if prs.len() > 0 {
        let d = prs.drop_last();
        lemma_first_seen_covers(d, by);
        let seen = first_seen(d, by);
        let key = group_key(prs.last(), by);
        let all = first_seen(prs, by);
        assert forall|k: int| 0 <= k < prs.len() implies all.contains(group_key(#[trigger] prs[k], by)) by {
            if k < d.len() {
                assert(d[k] == prs[k]);
                assert(seen.contains(group_key(d[k], by)));
                let j = choose|j: int| 0 <= j < seen.len() && seen[j] == group_key(d[k], by);
                assert(all[j] == seen[j]);
            } else {
                if !seen.contains(key) {
                    assert(all[seen.len() as int] == key);
                }
            }
        }
        assert forall|j: int| 0 <= j < all.len() implies exists|k: int|
            0 <= k < prs.len() && group_key(#[trigger] prs[k], by) == #[trigger] all[j] by {
            if j < seen.len() {
                let k = choose|k: int| 0 <= k < d.len() && group_key(#[trigger] d[k], by) == seen[j];
                assert(prs[k] == d[k]);
            } else {
                assert(group_key(prs[prs.len() - 1], by) == all[j]);
            }
        }
    }
}

/// Ranked groups: busiest first, each name once, every name present.
pub proof fn lemma_group_ranking(prs: Seq<PullRequest>, by: GroupBy, since: int)
    requires
        prs.len() <= usize::MAX,
    ensures
        forall|i: int, j: int|
            0 <= i < j < first_seen(prs, by).len() ==> group_pr_count(
                prs,
                by,
                #[trigger] group_at_rank(prs, by, since, i),
                since,
            ) >= group_pr_count(prs, by, #[trigger] group_at_rank(prs, by, since, j), since),
        forall|i: int, j: int|
            0 <= i < first_seen(prs, by).len() && 0 <= j < first_seen(prs, by).len() && i != j
                ==> #[trigger] group_at_rank(prs, by, since, i) != #[trigger] group_at_rank(
                prs,
                by,
                since,
                j,
            ),
        forall|k: int|
            0 <= k < prs.len() ==> exists|i: int|
                0 <= i < first_seen(prs, by).len() && #[trigger] group_at_rank(prs, by, since, i)
                    == group_key(#[trigger] prs[k], by),
{
    let names = first_seen(prs, by);
    let keys = group_keys(prs, by, since);
    let order = ranked(keys);
    lemma_first_seen_len(prs, by);
    lemma_first_seen_distinct(prs, by);
    lemma_first_seen_covers(prs, by);
    crate::sorting::lemma_ranked(keys);
    assert forall|x: int| 0 <= x < names.len() implies #[trigger] keys[x] == group_pr_count(
        prs,
        by,
        names[x],
        since,
    ) by {
        crate::seqs::lemma_count_where_le(
            prs,
            |p: PullRequest| in_group(p, by, names[x], since),
        );
    }
    assert forall|i: int, j: int| 0 <= i < j < names.len() implies group_pr_count(
        prs,
        by,
        #[trigger] group_at_rank(prs, by, since, i),
        since,
    ) >= group_pr_count(prs, by, #[trigger] group_at_rank(prs, by, since, j), since) by {
        assert((|a: usize, b: usize| crate::sorting::rank_le(keys, a, b))(order[i], order[j]));
    }
    assert forall|k: int| 0 <= k < prs.len() implies exists|i: int|
        0 <= i < names.len() && #[trigger] group_at_rank(prs, by, since, i) == group_key(
            #[trigger] prs[k],
            by,
        ) by {
        let x = choose|x: int| 0 <= x < names.len() && names[x] == group_key(prs[k], by);
        assert(order.contains(x as usize));
        let i = choose|i: int| 0 <= i < order.len() && order[i] == x as usize;
        assert(group_at_rank(prs, by, since, i) == names[x]);
    }
}

/// Numbers of pull requests in the window of each of `names`.
pub open spec fn group_counts(prs: Seq<PullRequest>, by: GroupBy, names: Seq<Seq<char>>, since: int) -> Seq<int> {
    names.map_values(|n: Seq<char>| group_pr_count(prs, by, n, since) as int)
}

/// Pull requests opened at or after `since`.
pub open spec fn window_pr_count(prs: Seq<PullRequest>, since: int) -> nat {
    count_where(prs, |p: PullRequest| p.created_at >= since)
}

proof fn lemma_counts_step(prs: Seq<PullRequest>, by: GroupBy, names: Seq<Seq<char>>, since: int)
    requires
        prs.len() > 0,
        names.no_duplicates(),
    ensures
        crate::seqs::sum_ints(group_counts(prs, by, names, since)) == crate::seqs::sum_ints(
            group_counts(prs.drop_last(), by, names, since),
        ) + if names.contains(group_key(prs.last(), by)) && prs.last().created_at >= since {
            1int
        } else {
            0int
        },
    decreases names.len(),
{
    if names.len() > 0 {
        let ns = names.drop_last();
        let m = names.last();
        assert(ns.no_duplicates()) by {
            assert forall|i: int, j: int| 0 <= i < ns.len() && 0 <= j < ns.len() && i != j implies ns[i]
                != ns[j] by {
                assert(ns[i] == names[i]);
                assert(ns[j] == names[j]);
            }
        }
        lemma_counts_step(prs, by, ns, since);
        assert(group_counts(prs, by, names, since).drop_last() =~= group_counts(prs, by, ns, since));
        assert(group_counts(prs.drop_last(), by, names, since).drop_last() =~= group_counts(
            prs.drop_last(),
            by,
            ns,
            since,
        ));
        let k = group_key(prs.last(), by);
        assert(names.contains(k) <==> (ns.contains(k) || m == k)) by {
            if names.contains(k) {
                let i = choose|i: int| 0 <= i < names.len() && names[i] == k;
                if i < ns.len() {
                    assert(ns[i] == k);
                }
            }
            if ns.contains(k) {
                let i = choose|i: int| 0 <= i < ns.len() && ns[i] == k;
                assert(names[i] == k);
            }
        }
        assert(!(ns.contains(k) && m == k)) by {
            if ns.contains(k) && m == k {
                let i = choose|i: int| 0 <= i < ns.len() && ns[i] == k;
                assert(names[i] == names[names.len() - 1]);
            }
        }
    } else {
        assert(group_counts(prs, by, names, since) =~= Seq::<int>::empty());
        assert(group_counts(prs.drop_last(), by, names, since) =~= Seq::<int>::empty());
    }
}

proof fn lemma_count_absent(prs: Seq<PullRequest>, by: GroupBy, name: Seq<char>, since: int)
    requires
        forall|k: int| 0 <= k < prs.len() ==> group_key(#[trigger] prs[k], by) != name,
    ensures
        group_pr_count(prs, by, name, since) == 0,
    decreases prs.len(),
{
    if prs.len() > 0 {
        let d = prs.drop_last();
        assert forall|k: int| 0 <= k < d.len() implies group_key(#[trigger] d[k], by) != name by {
            assert(d[k] == prs[k]);
        }
        lemma_count_absent(d, by, name, since);
        assert(group_key(prs[prs.len() - 1], by) != name);
    }
}

/// Every pull request in the window belongs to exactly one group: the groups'
/// numbers add up to the number of pull requests in the window.
pub proof fn lemma_groups_partition(prs: Seq<PullRequest>, by: GroupBy, since: int)
    ensures
        crate::seqs::sum_ints(group_counts(prs, by, first_seen(prs, by), since)) == window_pr_count(
            prs,
            since,
        ),
    decreases prs.len(),
{
    if prs.len() == 0 {
        assert(group_counts(prs, by, first_seen(prs, by), since) =~= Seq::<int>::empty());
    } else {
        let d = prs.drop_last();
        let seen = first_seen(d, by);
        let k = group_key(prs.last(), by);
        lemma_groups_partition(d, by, since);
        lemma_first_seen_distinct(d, by);
        lemma_first_seen_distinct(prs, by);
        if seen.contains(k) {
            lemma_counts_step(prs, by, seen, since);
        } else {
            let names = seen.push(k);
            assert(first_seen(prs, by) == names);
            lemma_counts_step(prs, by, names, since);
            assert(group_counts(prs, by, names, since).drop_last() =~= group_counts(
                prs,
                by,
                seen,
                since,
            ));
            assert(group_counts(d, by, names, since).drop_last() =~= group_counts(d, by, seen, since));
            lemma_first_seen_covers(d, by);
            assert forall|j: int| 0 <= j < d.len() implies group_key(#[trigger] d[j], by) != k by {
                assert(seen.contains(group_key(d[j], by)));
            }
            lemma_count_absent(d, by, k, since);
            assert(names.contains(k)) by {
                assert(names[names.len() - 1] == k);
            }
        }
    }
}

} // verus!
