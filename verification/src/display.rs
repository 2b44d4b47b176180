//! Presentation rules: how a metric is phrased and which rows come first.
use vstd::prelude::*;

use crate::clock::trunc_div;
use crate::sorting::{rank_desc, ranked};
use crate::text::text_eq;
use crate::types::{DoraLevel, FrequencyMetric, Ratio, WorkflowRun};

verus! {

/// Unit in which a deployment frequency is shown.
#[derive(Debug, Clone, Copy, PartialEq, Eq, Structural)]
pub enum Cadence {
    NoData,
    PerDay,
    PerWeek,
    PerMonth,
}

pub open spec fn cadence_of(m: FrequencyMetric) -> Cadence {
    if m.level == DoraLevel::NoData {
        Cadence::NoData
    } else if m.events >= m.window_days {
        Cadence::PerDay
    } else if 7 * m.events >= m.window_days {
        Cadence::PerWeek
    } else {
        Cadence::PerMonth
    }
}

impl FrequencyMetric {
    /// Per day from one event a day, per week from one a week, else per month.
    pub fn cadence(&self) -> (c: Cadence)
        ensures
            c == cadence_of(*self),
    {
        if self.level == DoraLevel::NoData {
            Cadence::NoData
        } else if self.events as u64 >= self.window_days as u64 {
            Cadence::PerDay
        } else if 7 * (self.events as u64) >= self.window_days as u64 {
            Cadence::PerWeek
        } else {
            Cadence::PerMonth
        }
    }
}

/// Health of a repository's CI pass rate.
#[derive(Debug, Clone, Copy, PartialEq, Eq, Structural)]
pub enum Health {
    /// At least 95 %.
    Good,
    /// At least 80 %.
    Fair,
    Poor,
}

pub open spec fn health_of(r: Ratio) -> Health {
    if 20 * r.num >= 19 * r.den {
        Health::Good
    } else if 5 * r.num >= 4 * r.den {
        Health::Fair
    } else {
        Health::Poor
    }
}

pub fn ci_health(r: &Ratio) -> (h: Health)
    ensures
        h == health_of(*r),
{
    let n = r.num as u128;
    let d = r.den as u128;
    if 20 * n >= 19 * d {
        Health::Good
    } else if 5 * n >= 4 * d {
        Health::Fair
    } else {
        Health::Poor
    }
}

/// How a workflow run concluded.
#[derive(Debug, Clone, Copy, PartialEq, Eq, Structural)]
pub enum ConclusionKind {
    Success,
    Failure,
    TimedOut,
    Cancelled,
    /// Some other conclusion.
    Other,
    /// No conclusion yet.
    Running,
}

pub open spec fn conclusion_kind_of(c: Option<Seq<char>>) -> ConclusionKind {
    match c {
        None => ConclusionKind::Running,
        Some(s) => if s == "success"@ {
            ConclusionKind::Success
        } else if s == "failure"@ {
            ConclusionKind::Failure
        } else if s == "timed_out"@ {
            ConclusionKind::TimedOut
        } else if s == "cancelled"@ {
            ConclusionKind::Cancelled
        } else {
            ConclusionKind::Other
        },
    }
}

impl WorkflowRun {
    /// Kind of the run's conclusion.
    pub fn conclusion_kind(&self) -> (k: ConclusionKind)
        ensures
            k == conclusion_kind_of(match self.conclusion {
                Some(s) => Some(s@),
                None => None,
            }),
    {
        match &self.conclusion {
            None => ConclusionKind::Running,
            Some(s) => {
                let s = s.as_str();
                if text_eq(s, "success") {
                    ConclusionKind::Success
                } else if text_eq(s, "failure") {
                    ConclusionKind::Failure
                } else if text_eq(s, "timed_out") {
                    ConclusionKind::TimedOut
                } else if text_eq(s, "cancelled") {
                    ConclusionKind::Cancelled
                } else {
                    ConclusionKind::Other
                }
            },
        }
    }
}

/// Positions of the runs, most recently created first; runs created at the
/// same instant keep their order.
pub open spec fn recent_order(runs: Seq<WorkflowRun>) -> Seq<usize> {
    ranked(runs.map_values(|r: WorkflowRun| r.created_at as i128))
}

pub fn recent_first(runs: &Vec<WorkflowRun>) -> (order: Vec<usize>)
    ensures
        order@ == recent_order(runs@),
{
    let mut keys: Vec<i128> = Vec::new();
    let mut i: usize = 0;
    while i < runs.len()
        invariant
            i <= runs@.len(),
            keys@.len() == i,
            forall|k: int| 0 <= k < i ==> #[trigger] keys@[k] == runs@[k].created_at as i128,
        decreases runs@.len() - i,
    {
        keys.push(runs[i].created_at as i128);
        i = i + 1;
    }
    proof {
        assert(keys@ =~= runs@.map_values(|r: WorkflowRun| r.created_at as i128));
    }
    rank_desc(&keys)
}

/// Whole minutes and remaining seconds of a duration, as `/` and `%` give them.
pub fn minutes_and_seconds(secs: i64) -> (r: (i64, i64))
    ensures
        r.0 == trunc_div(secs as int, 60),
        r.1 == secs - 60 * trunc_div(secs as int, 60),
{
    let q = if secs >= 0 {
        secs / 60
    } else {
        -((-(secs as i128)) / 60) as i64
    };
    (q, secs - 60 * q)
}

} // verus!
