//! Domain types: GitHub activity records, computed metrics and the dataset.
//!
//! Instants are whole seconds since the Unix epoch (UTC).  Every instant a
//! record can hold lies in the range of `chrono::DateTime<Utc>`, which is
//! what `valid_instant` states.
use vstd::prelude::*;

use crate::text::text_eq;

verus! {

/// Earliest instant representable by `chrono::DateTime<Utc>` (seconds since the epoch).
pub const MIN_INSTANT: i64 = -8334601315200i64;

/// Latest instant representable by `chrono::DateTime<Utc>` (seconds since the epoch).
pub const MAX_INSTANT: i64 = 8210266876799i64;

/// Seconds in a day.
pub const SECS_PER_DAY: i64 = 86400i64;

pub open spec fn valid_instant(t: i64) -> bool {
    MIN_INSTANT <= t <= MAX_INSTANT
}

pub open spec fn valid_opt_instant(t: Option<i64>) -> bool {
    match t {
        Some(x) => valid_instant(x),
        None => true,
    }
}

// ── Config ───────────────────────────────────────────────────────────────────
/// Settings that select which GitHub data is analysed.
#[derive(Debug, Clone)]
pub struct Config {
    pub token: String,
    pub owner: String,
    /// Repositories to analyse; empty means every repository of the owner.
    pub repos: Vec<String>,
    pub lookback_days: u32,
}

// ── Raw GitHub domain types ──────────────────────────────────────────────────
/// A pull request, with its timestamps as seconds since the epoch.
#[derive(Debug, Clone)]
pub struct PullRequest {
    pub number: u64,
    pub repo: String,
    pub title: String,
    pub author: String,
    pub created_at: i64,
    pub merged_at: Option<i64>,
    pub closed_at: Option<i64>,
    pub first_review_at: Option<i64>,
    pub additions: u32,
    pub deletions: u32,
    pub changed_files: u32,
    pub base_ref: String,
}

/// Size class of a change, by lines added plus lines deleted.
pub open spec fn size_bucket_text(lines: int) -> Seq<char> {
    if lines <= 50 {
        "XS"@
    } else if lines <= 200 {
        "S"@
    } else if lines <= 500 {
        "M"@
    } else if lines <= 999 {
        "L"@
    } else {
        "XL"@
    }
}

impl PullRequest {
    /// Lines touched: additions plus deletions.
    pub open spec fn lines(self) -> int {
        self.additions + self.deletions
    }

    /// Timestamps lie in chrono's range and the line count fits in a `u32`
    /// (the sum is formed in `u32` arithmetic).
    pub open spec fn wf(self) -> bool {
        &&& valid_instant(self.created_at)
        &&& valid_opt_instant(self.merged_at)
        &&& valid_opt_instant(self.closed_at)
        &&& valid_opt_instant(self.first_review_at)
        &&& self.lines() <= u32::MAX
    }

    /// XS (≤ 50 lines), S (≤ 200), M (≤ 500), L (≤ 999) or XL.
    pub fn size_bucket(&self) -> (s: &'static str)
        requires
            self.lines() <= u32::MAX,
        ensures
            s@ == size_bucket_text(self.lines()),
    {
        let lines = self.additions + self.deletions;
        if lines <= 50 {
            "XS"
        } else if lines <= 200 {
            "S"
        } else if lines <= 500 {
            "M"
        } else if lines <= 999 {
            "L"
        } else {
            "XL"
        }
    }
}

/// A deployment and the state of its latest status.
#[derive(Debug, Clone)]
pub struct Deployment {
    pub id: u64,
    pub repo: String,
    pub environment: String,
    pub sha: String,
    pub created_at: i64,
    pub status: DeploymentStatus,
}

#[derive(Debug, Clone, Copy, PartialEq, Eq, Structural)]
pub enum DeploymentStatus {
    Success,
    Failure,
    InProgress,
    Pending,
    Other,
}

/// A completed GitHub Actions workflow run.
#[derive(Debug, Clone)]
pub struct WorkflowRun {
    pub id: u64,
    pub repo: String,
    pub name: String,
    pub branch: String,
    pub conclusion: Option<String>,
    pub created_at: i64,
    pub updated_at: i64,
    pub duration_secs: Option<i64>,
}

impl WorkflowRun {
    pub open spec fn is_pass(self) -> bool {
        self.conclusion matches Some(c) && c@ == "success"@
    }

    pub open spec fn is_fail(self) -> bool {
        self.conclusion matches Some(c) && (c@ == "failure"@ || c@ == "timed_out"@)
    }

    pub open spec fn wf(self) -> bool {
        valid_instant(self.created_at) && valid_instant(self.updated_at)
    }

    /// The run concluded with `success`.
    pub fn passed(&self) -> (b: bool)
        ensures
            b == self.is_pass(),
    {
        match &self.conclusion {
            Some(c) => text_eq(c.as_str(), "success"),
            None => false,
        }
    }

    /// The run concluded with `failure` or `timed_out`.
    pub fn failed(&self) -> (b: bool)
        ensures
            b == self.is_fail(),
    {
        match &self.conclusion {
            Some(c) => text_eq(c.as_str(), "failure") || text_eq(c.as_str(), "timed_out"),
            None => false,
        }
    }
}

// ── Computed metrics ─────────────────────────────────────────────────────────
/// An exact fraction `num / den` with `den > 0`.
#[derive(Debug, Clone, Copy, PartialEq, Eq, Structural)]
pub struct Ratio {
    pub num: usize,
    pub den: usize,
}

/// An exact average `total / count`, read as 0 when `count` is 0.
#[derive(Debug, Clone, Copy, PartialEq, Eq, Structural)]
pub struct Mean {
    pub total: i128,
    pub count: usize,
}

/// Events per day over a window of `window_days` days.
#[derive(Debug, Clone)]
pub struct FrequencyMetric {
    /// Number of events in the window; the rate is `events / window_days`.
    pub events: usize,
    pub window_days: u32,
    /// DORA level: Elite / High / Medium / Low / NoData
    pub level: DoraLevel,
    /// Daily event counts for the sparkline (oldest → newest)
    pub history: Vec<u64>,
}

/// A median duration.
#[derive(Debug, Clone)]
pub struct DurationMetric {
    /// Twice the median duration, in minutes (the median of an even number of
    /// values is the mean of the two middle ones).
    pub median_minutes_x2: i64,
    pub level: DoraLevel,
    /// Daily medians, each as twice the median in minutes (oldest → newest; 0
    /// for a day without data)
    pub history: Vec<i64>,
}

/// A proportion.
#[derive(Debug, Clone)]
pub struct RateMetric {
    pub rate: Ratio,
    pub level: DoraLevel,
    /// Daily rates for the sparkline (oldest → newest)
    pub history: Vec<Ratio>,
}

#[derive(Debug, Clone)]
pub struct DoraMetrics {
    pub deployment_frequency: FrequencyMetric,
    pub lead_time: DurationMetric,
    pub change_failure_rate: RateMetric,
    pub mean_time_to_recovery: DurationMetric,
    // Bonus
    pub pr_cycle_time: DurationMetric,
    pub review_turnaround: DurationMetric,
    pub ci_pass_rate: RateMetric,
    /// Twice the median number of lines touched by a pull request.
    pub median_pr_size_x2: i64,
}

/// Performance band of a DORA metric, following the DORA research bands.
#[derive(Debug, Clone, Copy, PartialEq, Eq, Structural)]
pub enum DoraLevel {
    Elite,
    High,
    Medium,
    Low,
    /// Not enough data to compute a level
    NoData,
}

impl Default for DoraLevel {
    fn default() -> (l: DoraLevel)
        ensures
            l == DoraLevel::Medium,
    {
        DoraLevel::Medium
    }
}

impl DoraLevel {
    pub open spec fn label_text(self) -> Seq<char> {
        match self {
            DoraLevel::Elite => "Elite"@,
            DoraLevel::High => "High"@,
            DoraLevel::Medium => "Medium"@,
            DoraLevel::Low => "Low"@,
            DoraLevel::NoData => "No data"@,
        }
    }

    pub open spec fn color_text(self) -> Seq<char> {
        match self {
            DoraLevel::Elite => "green"@,
            DoraLevel::High => "cyan"@,
            DoraLevel::Medium => "yellow"@,
            DoraLevel::Low => "red"@,
            DoraLevel::NoData => "gray"@,
        }
    }

    /// Human-readable name of the band.
    pub fn label(&self) -> (s: &'static str)
        ensures
            s@ == self.label_text(),
    {
        match self {
            DoraLevel::Elite => "Elite",
            DoraLevel::High => "High",
            DoraLevel::Medium => "Medium",
            DoraLevel::Low => "Low",
            DoraLevel::NoData => "No data",
        }
    }

    /// Name of the colour the band is drawn in.
    pub fn color_hint(&self) -> (s: &'static str)
        ensures
            s@ == self.color_text(),
    {
        match self {
            DoraLevel::Elite => "green",
            DoraLevel::High => "cyan",
            DoraLevel::Medium => "yellow",
            DoraLevel::Low => "red",
            DoraLevel::NoData => "gray",
        }
    }
}

// ── Per-repo breakdown ───────────────────────────────────────────────────────
#[derive(Debug, Clone)]
pub struct RepoStats {
    pub repo: String,
    pub pr_count: usize,
    pub merged_count: usize,
    /// Mean cycle time of merged pull requests, in minutes.
    pub avg_cycle_minutes: Mean,
    /// Mean time to first review of reviewed pull requests, in minutes.
    pub avg_review_minutes: Mean,
    pub ci_pass_rate: Ratio,
    pub deploy_count: usize,
}

// ── Per-author breakdown ─────────────────────────────────────────────────────
#[derive(Debug, Clone)]
pub struct AuthorStats {
    pub author: String,
    pub pr_count: usize,
    pub merged_count: usize,
    /// Mean cycle time of merged pull requests, in minutes.
    pub avg_cycle_minutes: Mean,
    /// Mean lines touched per pull request.
    pub avg_pr_size: Mean,
    pub reviews_given: usize,
}

// ── Full dataset ─────────────────────────────────────────────────────────────
#[derive(Debug, Clone)]
pub struct Dataset {
    pub owner: String,
    pub since: Option<i64>,
    pub until: Option<i64>,
    pub prs: Vec<PullRequest>,
    pub deployments: Vec<Deployment>,
    pub ci_runs: Vec<WorkflowRun>,
}

impl Default for Dataset {
    fn default() -> (d: Dataset)
        ensures
            d.owner@.len() == 0,
            d.since.is_none(),
            d.until.is_none(),
            d.prs@.len() == 0,
            d.deployments@.len() == 0,
            d.ci_runs@.len() == 0,
    {
        Dataset {
            owner: String::new(),
            since: None,
            until: None,
            prs: Vec::new(),
            deployments: Vec::new(),
            ci_runs: Vec::new(),
        }
    }
}

impl Dataset {
    /// Every timestamp lies in chrono's range and every line count fits in a `u32`.
    pub open spec fn wf(self) -> bool {
        &&& valid_opt_instant(self.since)
        &&& valid_opt_instant(self.until)
        &&& forall|i: int| 0 <= i < self.prs@.len() ==> (#[trigger] self.prs@[i]).wf()
        &&& forall|i: int|
            0 <= i < self.deployments@.len() ==> valid_instant(
                #[trigger] self.deployments@[i].created_at,
            )
        &&& forall|i: int| 0 <= i < self.ci_runs@.len() ==> (#[trigger] self.ci_runs@[i]).wf()
    }
}

} // verus!
