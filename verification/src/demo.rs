//! A fixed demonstration dataset: four repositories of an `acme` organisation.
use vstd::prelude::*;

use crate::clock::now_seconds;
use crate::text::{decimal, decimal_text, hex4, hex4_text};
use crate::types::{
    valid_instant, Dataset, Deployment, DeploymentStatus, PullRequest, WorkflowRun, MAX_INSTANT,
    MIN_INSTANT,
};

verus! {

/// A row of the demonstration pull requests: repository, author, days before
/// now it was opened, hours until merge, lines added and deleted, and its
/// position among the repository's rows.
pub struct DemoPr {
    pub repo: Seq<char>,
    pub author: Seq<char>,
    pub days_ago: int,
    pub cycle_hours: int,
    pub additions: u32,
    pub deletions: u32,
    pub position: int,
}

/// A row of the demonstration deployments: repository and outcome.
pub struct DemoDeploy {
    pub repo: Seq<char>,
    pub success: bool,
}

/// A row of the demonstration workflow runs: repository, workflow, outcome,
/// and position among the repository's runs (one run a week, newest first).
pub struct DemoRun {
    pub repo: Seq<char>,
    pub name: Seq<char>,
    pub passed: bool,
    pub position: int,
}

pub open spec fn demo_pr_rows() -> Seq<DemoPr> {
    seq![
        DemoPr { repo: "api-service"@, author: "alice"@, days_ago: 2, cycle_hours: 26, additions: 120, deletions: 45, position: 0 },
        DemoPr { repo: "api-service"@, author: "bob"@, days_ago: 5, cycle_hours: 48, additions: 300, deletions: 80, position: 1 },
        DemoPr { repo: "api-service"@, author: "carol"@, days_ago: 1, cycle_hours: 12, additions: 40, deletions: 15, position: 2 },
        DemoPr { repo: "api-service"@, author: "alice"@, days_ago: 3, cycle_hours: 36, additions: 200, deletions: 60, position: 3 },
        DemoPr { repo: "api-service"@, author: "dave"@, days_ago: 10, cycle_hours: 168, additions: 800, deletions: 210, position: 4 },
        DemoPr { repo: "api-service"@, author: "bob"@, days_ago: 4, cycle_hours: 24, additions: 180, deletions: 50, position: 5 },
        DemoPr { repo: "api-service"@, author: "eve"@, days_ago: 2, cycle_hours: 18, additions: 90, deletions: 30, position: 6 },
        DemoPr { repo: "api-service"@, author: "alice"@, days_ago: 6, cycle_hours: 72, additions: 400, deletions: 120, position: 7 },
        DemoPr { repo: "api-service"@, author: "carol"@, days_ago: 1, cycle_hours: 8, additions: 20, deletions: 10, position: 8 },
        DemoPr { repo: "api-service"@, author: "frank"@, days_ago: 3, cycle_hours: 30, additions: 150, deletions: 45, position: 9 },
        DemoPr { repo: "api-service"@, author: "dave"@, days_ago: 7, cycle_hours: 96, additions: 550, deletions: 160, position: 10 },
        DemoPr { repo: "api-service"@, author: "bob"@, days_ago: 2, cycle_hours: 20, additions: 100, deletions: 35, position: 11 },
        DemoPr { repo: "frontend"@, author: "carol"@, days_ago: 1, cycle_hours: 10, additions: 80, deletions: 20, position: 0 },
        DemoPr { repo: "frontend"@, author: "frank"@, days_ago: 3, cycle_hours: 32, additions: 220, deletions: 55, position: 1 },
        DemoPr { repo: "frontend"@, author: "alice"@, days_ago: 2, cycle_hours: 22, additions: 130, deletions: 40, position: 2 },
        DemoPr { repo: "frontend"@, author: "dave"@, days_ago: 5, cycle_hours: 56, additions: 380, deletions: 100, position: 3 },
        DemoPr { repo: "frontend"@, author: "bob"@, days_ago: 1, cycle_hours: 9, additions: 60, deletions: 18, position: 4 },
        DemoPr { repo: "frontend"@, author: "carol"@, days_ago: 4, cycle_hours: 44, additions: 290, deletions: 75, position: 5 },
        DemoPr { repo: "frontend"@, author: "eve"@, days_ago: 2, cycle_hours: 17, additions: 95, deletions: 28, position: 6 },
        DemoPr { repo: "frontend"@, author: "frank"@, days_ago: 6, cycle_hours: 80, additions: 500, deletions: 140, position: 7 },
        DemoPr { repo: "frontend"@, author: "alice"@, days_ago: 1, cycle_hours: 11, additions: 70, deletions: 22, position: 8 },
        DemoPr { repo: "frontend"@, author: "dave"@, days_ago: 3, cycle_hours: 34, additions: 200, deletions: 58, position: 9 },
        DemoPr { repo: "infra"@, author: "eve"@, days_ago: 8, cycle_hours: 120, additions: 600, deletions: 180, position: 0 },
        DemoPr { repo: "infra"@, author: "alice"@, days_ago: 2, cycle_hours: 28, additions: 150, deletions: 45, position: 1 },
        DemoPr { repo: "infra"@, author: "bob"@, days_ago: 5, cycle_hours: 64, additions: 420, deletions: 110, position: 2 },
        DemoPr { repo: "infra"@, author: "carol"@, days_ago: 1, cycle_hours: 16, additions: 80, deletions: 25, position: 3 },
        DemoPr { repo: "infra"@, author: "eve"@, days_ago: 3, cycle_hours: 38, additions: 230, deletions: 68, position: 4 },
        DemoPr { repo: "infra"@, author: "frank"@, days_ago: 4, cycle_hours: 48, additions: 310, deletions: 85, position: 5 },
        DemoPr { repo: "auth-service"@, author: "alice"@, days_ago: 2, cycle_hours: 22, additions: 110, deletions: 38, position: 0 },
        DemoPr { repo: "auth-service"@, author: "bob"@, days_ago: 3, cycle_hours: 34, additions: 200, deletions: 60, position: 1 },
        DemoPr { repo: "auth-service"@, author: "carol"@, days_ago: 1, cycle_hours: 12, additions: 55, deletions: 18, position: 2 },
        DemoPr { repo: "auth-service"@, author: "dave"@, days_ago: 6, cycle_hours: 88, additions: 480, deletions: 140, position: 3 },
        DemoPr { repo: "auth-service"@, author: "alice"@, days_ago: 4, cycle_hours: 46, additions: 280, deletions: 82, position: 4 },
        DemoPr { repo: "auth-service"@, author: "eve"@, days_ago: 2, cycle_hours: 19, additions: 90, deletions: 28, position: 5 },
    ]
}

pub open spec fn demo_deploy_rows() -> Seq<DemoDeploy> {
    seq![
        DemoDeploy { repo: "api-service"@, success: true },
        DemoDeploy { repo: "api-service"@, success: true },
        DemoDeploy { repo: "api-service"@, success: false },
        DemoDeploy { repo: "api-service"@, success: true },
        DemoDeploy { repo: "api-service"@, success: true },
        DemoDeploy { repo: "frontend"@, success: true },
        DemoDeploy { repo: "frontend"@, success: true },
        DemoDeploy { repo: "frontend"@, success: true },
        DemoDeploy { repo: "infra"@, success: true },
        DemoDeploy { repo: "infra"@, success: false },
        DemoDeploy { repo: "infra"@, success: true },
        DemoDeploy { repo: "auth-service"@, success: true },
        DemoDeploy { repo: "auth-service"@, success: true },
    ]
}

pub open spec fn demo_run_rows() -> Seq<DemoRun> {
    seq![
        DemoRun { repo: "api-service"@, name: "CI"@, passed: true, position: 0 },
        DemoRun { repo: "api-service"@, name: "CI"@, passed: true, position: 1 },
        DemoRun { repo: "api-service"@, name: "CI"@, passed: true, position: 2 },
        DemoRun { repo: "api-service"@, name: "CI"@, passed: true, position: 3 },
        DemoRun { repo: "api-service"@, name: "CI"@, passed: true, position: 4 },
        DemoRun { repo: "api-service"@, name: "CI"@, passed: true, position: 5 },
        DemoRun { repo: "api-service"@, name: "CI"@, passed: false, position: 6 },
        DemoRun { repo: "api-service"@, name: "CI"@, passed: true, position: 7 },
        DemoRun { repo: "api-service"@, name: "CI"@, passed: true, position: 8 },
        DemoRun { repo: "api-service"@, name: "CI"@, passed: true, position: 9 },
        DemoRun { repo: "frontend"@, name: "Build & Test"@, passed: true, position: 0 },
        DemoRun { repo: "frontend"@, name: "Build & Test"@, passed: true, position: 1 },
        DemoRun { repo: "frontend"@, name: "Build & Test"@, passed: true, position: 2 },
        DemoRun { repo: "frontend"@, name: "Build & Test"@, passed: true, position: 3 },
        DemoRun { repo: "frontend"@, name: "Build & Test"@, passed: false, position: 4 },
        DemoRun { repo: "frontend"@, name: "Build & Test"@, passed: true, position: 5 },
        DemoRun { repo: "frontend"@, name: "Build & Test"@, passed: true, position: 6 },
        DemoRun { repo: "frontend"@, name: "Build & Test"@, passed: true, position: 7 },
        DemoRun { repo: "frontend"@, name: "Build & Test"@, passed: true, position: 8 },
        DemoRun { repo: "frontend"@, name: "Build & Test"@, passed: true, position: 9 },
        DemoRun { repo: "infra"@, name: "Terraform Plan"@, passed: true, position: 0 },
        DemoRun { repo: "infra"@, name: "Terraform Plan"@, passed: true, position: 1 },
        DemoRun { repo: "infra"@, name: "Terraform Plan"@, passed: true, position: 2 },
        DemoRun { repo: "infra"@, name: "Terraform Plan"@, passed: false, position: 3 },
        DemoRun { repo: "infra"@, name: "Terraform Plan"@, passed: true, position: 4 },
        DemoRun { repo: "infra"@, name: "Terraform Plan"@, passed: true, position: 5 },
        DemoRun { repo: "infra"@, name: "Terraform Plan"@, passed: true, position: 6 },
        DemoRun { repo: "infra"@, name: "Terraform Plan"@, passed: true, position: 7 },
        DemoRun { repo: "infra"@, name: "Terraform Plan"@, passed: true, position: 8 },
        DemoRun { repo: "infra"@, name: "Terraform Plan"@, passed: true, position: 9 },
        DemoRun { repo: "auth-service"@, name: "Security & Test"@, passed: true, position: 0 },
        DemoRun { repo: "auth-service"@, name: "Security & Test"@, passed: true, position: 1 },
        DemoRun { repo: "auth-service"@, name: "Security & Test"@, passed: true, position: 2 },
        DemoRun { repo: "auth-service"@, name: "Security & Test"@, passed: true, position: 3 },
        DemoRun { repo: "auth-service"@, name: "Security & Test"@, passed: true, position: 4 },
        DemoRun { repo: "auth-service"@, name: "Security & Test"@, passed: false, position: 5 },
        DemoRun { repo: "auth-service"@, name: "Security & Test"@, passed: true, position: 6 },
        DemoRun { repo: "auth-service"@, name: "Security & Test"@, passed: true, position: 7 },
        DemoRun { repo: "auth-service"@, name: "Security & Test"@, passed: true, position: 8 },
        DemoRun { repo: "auth-service"@, name: "Security & Test"@, passed: true, position: 9 },
    ]
}

struct PrRow {
    repo: &'static str,
    author: &'static str,
    days_ago: i64,
    cycle_hours: i64,
    additions: u32,
    deletions: u32,
    position: i64,
}

struct DeployRow {
    repo: &'static str,
    success: bool,
}

struct RunRow {
    repo: &'static str,
    name: &'static str,
    passed: bool,
    position: i64,
}

spec fn rows_view(v: Seq<PrRow>) -> Seq<DemoPr> {
    v.map_values(
        |r: PrRow|
            DemoPr {
                repo: r.repo@,
                author: r.author@,
                days_ago: r.days_ago as int,
                cycle_hours: r.cycle_hours as int,
                additions: r.additions,
                deletions: r.deletions,
                position: r.position as int,
            },
    )
}

spec fn deploy_rows_view(v: Seq<DeployRow>) -> Seq<DemoDeploy> {
    v.map_values(|r: DeployRow| DemoDeploy { repo: r.repo@, success: r.success })
}

spec fn run_rows_view(v: Seq<RunRow>) -> Seq<DemoRun> {
    v.map_values(
        |r: RunRow| DemoRun { repo: r.repo@, name: r.name@, passed: r.passed, position: r.position as int },
    )
}

fn pr_rows() -> (v: Vec<PrRow>)
    ensures
        rows_view(v@) == demo_pr_rows(),
{
    let mut v: Vec<PrRow> = Vec::new();
    v.push(PrRow { repo: "api-service", author: "alice", days_ago: 2, cycle_hours: 26, additions: 120, deletions: 45, position: 0 });
    v.push(PrRow { repo: "api-service", author: "bob", days_ago: 5, cycle_hours: 48, additions: 300, deletions: 80, position: 1 });
    v.push(PrRow { repo: "api-service", author: "carol", days_ago: 1, cycle_hours: 12, additions: 40, deletions: 15, position: 2 });
    v.push(PrRow { repo: "api-service", author: "alice", days_ago: 3, cycle_hours: 36, additions: 200, deletions: 60, position: 3 });
    v.push(PrRow { repo: "api-service", author: "dave", days_ago: 10, cycle_hours: 168, additions: 800, deletions: 210, position: 4 });
    v.push(PrRow { repo: "api-service", author: "bob", days_ago: 4, cycle_hours: 24, additions: 180, deletions: 50, position: 5 });
    v.push(PrRow { repo: "api-service", author: "eve", days_ago: 2, cycle_hours: 18, additions: 90, deletions: 30, position: 6 });
    v.push(PrRow { repo: "api-service", author: "alice", days_ago: 6, cycle_hours: 72, additions: 400, deletions: 120, position: 7 });
    v.push(PrRow { repo: "api-service", author: "carol", days_ago: 1, cycle_hours: 8, additions: 20, deletions: 10, position: 8 });
    v.push(PrRow { repo: "api-service", author: "frank", days_ago: 3, cycle_hours: 30, additions: 150, deletions: 45, position: 9 });
    v.push(PrRow { repo: "api-service", author: "dave", days_ago: 7, cycle_hours: 96, additions: 550, deletions: 160, position: 10 });
    v.push(PrRow { repo: "api-service", author: "bob", days_ago: 2, cycle_hours: 20, additions: 100, deletions: 35, position: 11 });
    v.push(PrRow { repo: "frontend", author: "carol", days_ago: 1, cycle_hours: 10, additions: 80, deletions: 20, position: 0 });
    v.push(PrRow { repo: "frontend", author: "frank", days_ago: 3, cycle_hours: 32, additions: 220, deletions: 55, position: 1 });
    v.push(PrRow { repo: "frontend", author: "alice", days_ago: 2, cycle_hours: 22, additions: 130, deletions: 40, position: 2 });
    v.push(PrRow { repo: "frontend", author: "dave", days_ago: 5, cycle_hours: 56, additions: 380, deletions: 100, position: 3 });
    v.push(PrRow { repo: "frontend", author: "bob", days_ago: 1, cycle_hours: 9, additions: 60, deletions: 18, position: 4 });
    v.push(PrRow { repo: "frontend", author: "carol", days_ago: 4, cycle_hours: 44, additions: 290, deletions: 75, position: 5 });
    v.push(PrRow { repo: "frontend", author: "eve", days_ago: 2, cycle_hours: 17, additions: 95, deletions: 28, position: 6 });
    v.push(PrRow { repo: "frontend", author: "frank", days_ago: 6, cycle_hours: 80, additions: 500, deletions: 140, position: 7 });
    v.push(PrRow { repo: "frontend", author: "alice", days_ago: 1, cycle_hours: 11, additions: 70, deletions: 22, position: 8 });
    v.push(PrRow { repo: "frontend", author: "dave", days_ago: 3, cycle_hours: 34, additions: 200, deletions: 58, position: 9 });
    v.push(PrRow { repo: "infra", author: "eve", days_ago: 8, cycle_hours: 120, additions: 600, deletions: 180, position: 0 });
    v.push(PrRow { repo: "infra", author: "alice", days_ago: 2, cycle_hours: 28, additions: 150, deletions: 45, position: 1 });
    v.push(PrRow { repo: "infra", author: "bob", days_ago: 5, cycle_hours: 64, additions: 420, deletions: 110, position: 2 });
    v.push(PrRow { repo: "infra", author: "carol", days_ago: 1, cycle_hours: 16, additions: 80, deletions: 25, position: 3 });
    v.push(PrRow { repo: "infra", author: "eve", days_ago: 3, cycle_hours: 38, additions: 230, deletions: 68, position: 4 });
    v.push(PrRow { repo: "infra", author: "frank", days_ago: 4, cycle_hours: 48, additions: 310, deletions: 85, position: 5 });
    v.push(PrRow { repo: "auth-service", author: "alice", days_ago: 2, cycle_hours: 22, additions: 110, deletions: 38, position: 0 });
    v.push(PrRow { repo: "auth-service", author: "bob", days_ago: 3, cycle_hours: 34, additions: 200, deletions: 60, position: 1 });
    v.push(PrRow { repo: "auth-service", author: "carol", days_ago: 1, cycle_hours: 12, additions: 55, deletions: 18, position: 2 });
    v.push(PrRow { repo: "auth-service", author: "dave", days_ago: 6, cycle_hours: 88, additions: 480, deletions: 140, position: 3 });
    v.push(PrRow { repo: "auth-service", author: "alice", days_ago: 4, cycle_hours: 46, additions: 280, deletions: 82, position: 4 });
    v.push(PrRow { repo: "auth-service", author: "eve", days_ago: 2, cycle_hours: 19, additions: 90, deletions: 28, position: 5 });
    proof {
        assert(rows_view(v@) =~= demo_pr_rows());
    }
    v
}

fn deploy_rows() -> (v: Vec<DeployRow>)
    ensures
        deploy_rows_view(v@) == demo_deploy_rows(),
{
    let mut v: Vec<DeployRow> = Vec::new();
    v.push(DeployRow { repo: "api-service", success: true });
    v.push(DeployRow { repo: "api-service", success: true });
    v.push(DeployRow { repo: "api-service", success: false });
    v.push(DeployRow { repo: "api-service", success: true });
    v.push(DeployRow { repo: "api-service", success: true });
    v.push(DeployRow { repo: "frontend", success: true });
    v.push(DeployRow { repo: "frontend", success: true });
    v.push(DeployRow { repo: "frontend", success: true });
    v.push(DeployRow { repo: "infra", success: true });
    v.push(DeployRow { repo: "infra", success: false });
    v.push(DeployRow { repo: "infra", success: true });
    v.push(DeployRow { repo: "auth-service", success: true });
    v.push(DeployRow { repo: "auth-service", success: true });
    proof {
        assert(deploy_rows_view(v@) =~= demo_deploy_rows());
    }
    v
}

fn run_rows() -> (v: Vec<RunRow>)
    ensures
        run_rows_view(v@) == demo_run_rows(),
{
    let mut v: Vec<RunRow> = Vec::new();
    v.push(RunRow { repo: "api-service", name: "CI", passed: true, position: 0 });
    v.push(RunRow { repo: "api-service", name: "CI", passed: true, position: 1 });
    v.push(RunRow { repo: "api-service", name: "CI", passed: true, position: 2 });
    v.push(RunRow { repo: "api-service", name: "CI", passed: true, position: 3 });
    v.push(RunRow { repo: "api-service", name: "CI", passed: true, position: 4 });
    v.push(RunRow { repo: "api-service", name: "CI", passed: true, position: 5 });
    v.push(RunRow { repo: "api-service", name: "CI", passed: false, position: 6 });
    v.push(RunRow { repo: "api-service", name: "CI", passed: true, position: 7 });
    v.push(RunRow { repo: "api-service", name: "CI", passed: true, position: 8 });
    v.push(RunRow { repo: "api-service", name: "CI", passed: true, position: 9 });
    v.push(RunRow { repo: "frontend", name: "Build & Test", passed: true, position: 0 });
    v.push(RunRow { repo: "frontend", name: "Build & Test", passed: true, position: 1 });
    v.push(RunRow { repo: "frontend", name: "Build & Test", passed: true, position: 2 });
    v.push(RunRow { repo: "frontend", name: "Build & Test", passed: true, position: 3 });
    v.push(RunRow { repo: "frontend", name: "Build & Test", passed: false, position: 4 });
    v.push(RunRow { repo: "frontend", name: "Build & Test", passed: true, position: 5 });
    v.push(RunRow { repo: "frontend", name: "Build & Test", passed: true, position: 6 });
    v.push(RunRow { repo: "frontend", name: "Build & Test", passed: true, position: 7 });
    v.push(RunRow { repo: "frontend", name: "Build & Test", passed: true, position: 8 });
    v.push(RunRow { repo: "frontend", name: "Build & Test", passed: true, position: 9 });
    v.push(RunRow { repo: "infra", name: "Terraform Plan", passed: true, position: 0 });
    v.push(RunRow { repo: "infra", name: "Terraform Plan", passed: true, position: 1 });
    v.push(RunRow { repo: "infra", name: "Terraform Plan", passed: true, position: 2 });
    v.push(RunRow { repo: "infra", name: "Terraform Plan", passed: false, position: 3 });
    v.push(RunRow { repo: "infra", name: "Terraform Plan", passed: true, position: 4 });
    v.push(RunRow { repo: "infra", name: "Terraform Plan", passed: true, position: 5 });
    v.push(RunRow { repo: "infra", name: "Terraform Plan", passed: true, position: 6 });
    v.push(RunRow { repo: "infra", name: "Terraform Plan", passed: true, position: 7 });
    v.push(RunRow { repo: "infra", name: "Terraform Plan", passed: true, position: 8 });
    v.push(RunRow { repo: "infra", name: "Terraform Plan", passed: true, position: 9 });
    v.push(RunRow { repo: "auth-service", name: "Security & Test", passed: true, position: 0 });
    v.push(RunRow { repo: "auth-service", name: "Security & Test", passed: true, position: 1 });
    v.push(RunRow { repo: "auth-service", name: "Security & Test", passed: true, position: 2 });
    v.push(RunRow { repo: "auth-service", name: "Security & Test", passed: true, position: 3 });
    v.push(RunRow { repo: "auth-service", name: "Security & Test", passed: true, position: 4 });
    v.push(RunRow { repo: "auth-service", name: "Security & Test", passed: false, position: 5 });
    v.push(RunRow { repo: "auth-service", name: "Security & Test", passed: true, position: 6 });
    v.push(RunRow { repo: "auth-service", name: "Security & Test", passed: true, position: 7 });
    v.push(RunRow { repo: "auth-service", name: "Security & Test", passed: true, position: 8 });
    v.push(RunRow { repo: "auth-service", name: "Security & Test", passed: true, position: 9 });
    proof {
        assert(run_rows_view(v@) =~= demo_run_rows());
    }
    v
}

/// Opening instant of demonstration pull request `k`: its days before `now`,
/// less three hours per earlier row of its repository.
pub open spec fn demo_created(k: int, now: int) -> int {
    now - demo_pr_rows()[k].days_ago * 86400 - demo_pr_rows()[k].position * 3 * 3600
}

/// `p` is demonstration pull request `k` at `now`.
pub open spec fn demo_pr_ok(p: PullRequest, k: int, now: int) -> bool {
    let row = demo_pr_rows()[k];
    let created = demo_created(k, now);
    let merged = created + row.cycle_hours * 3600;
    &&& p.number == 100 + k
    &&& p.repo@ == row.repo
    &&& p.title@ == "PR #"@ + decimal_text((100 + k) as nat) + " in "@ + row.repo
    &&& p.author@ == row.author
    &&& p.created_at == created
    &&& p.merged_at == Some(merged as i64)
    &&& p.closed_at == Some(merged as i64)
    &&& p.first_review_at == Some((created + (row.cycle_hours / 4) * 3600) as i64)
    &&& p.additions == row.additions
    &&& p.deletions == row.deletions
    &&& p.changed_files == row.additions / 50 + 1
    &&& p.base_ref@ == "main"@
}

/// `d` is demonstration deployment `k` at `now`: one every five days.
pub open spec fn demo_deploy_ok(d: Deployment, k: int, now: int) -> bool {
    let row = demo_deploy_rows()[k];
    &&& d.id == k + 1
    &&& d.repo@ == row.repo
    &&& d.environment@ == "production"@
    &&& d.sha@ == "abc"@ + hex4_text(k as nat)
    &&& d.created_at == now - (5 * k + 1) * 86400
    &&& d.status == if row.success {
        DeploymentStatus::Success
    } else {
        DeploymentStatus::Failure
    }
}

/// `r` is demonstration workflow run `k` at `now`: eight minutes long.
pub open spec fn demo_run_ok(r: WorkflowRun, k: int, now: int) -> bool {
    let row = demo_run_rows()[k];
    &&& r.id == k + 1
    &&& r.repo@ == row.repo
    &&& r.name@ == row.name
    &&& r.branch@ == "main"@
    &&& r.conclusion matches Some(c) && c@ == (if row.passed {
        "success"@
    } else {
        "failure"@
    })
    &&& r.created_at == now - row.position * 7 * 86400
    &&& r.updated_at == r.created_at + 480
    &&& r.duration_secs == Some(480i64)
}

/// `ds` is the demonstration dataset at `now`, covering the 90 days before it.
pub open spec fn demo_dataset_ok(ds: Dataset, now: int) -> bool {
    &&& ds.owner@ == "acme"@
    &&& ds.since == Some((now - 90 * 86400) as i64)
    &&& ds.until == Some(now as i64)
    &&& ds.prs@.len() == demo_pr_rows().len()
    &&& forall|k: int| 0 <= k < ds.prs@.len() ==> demo_pr_ok(#[trigger] ds.prs@[k], k, now)
    &&& ds.deployments@.len() == demo_deploy_rows().len()
    &&& forall|k: int|
        0 <= k < ds.deployments@.len() ==> demo_deploy_ok(#[trigger] ds.deployments@[k], k, now)
    &&& ds.ci_runs@.len() == demo_run_rows().len()
    &&& forall|k: int| 0 <= k < ds.ci_runs@.len() ==> demo_run_ok(#[trigger] ds.ci_runs@[k], k, now)
}

proof fn lemma_pr_rows_bounds()
    ensures
        forall|k: int|
            0 <= k < demo_pr_rows().len() ==> {
                &&& 0 <= (#[trigger] demo_pr_rows()[k]).days_ago <= 10
                &&& 0 <= demo_pr_rows()[k].cycle_hours <= 168
                &&& 0 <= demo_pr_rows()[k].position < 12
                &&& demo_pr_rows()[k].additions <= 800
                &&& demo_pr_rows()[k].deletions <= 210
                &&& demo_pr_rows()[k].cycle_hours <= 24 * demo_pr_rows()[k].days_ago
                    + 3 * demo_pr_rows()[k].position
            },
{
}

proof fn lemma_run_rows_bounds()
    ensures
        forall|k: int| 0 <= k < demo_run_rows().len() ==> 0 <= (#[trigger] demo_run_rows()[k]).position < 10,
{
}

/// The demonstration dataset at `now`.
pub fn make_dataset_at(now: i64) -> (ds: Dataset)
    requires
        valid_instant(now),
        now - 90 * 86400 >= MIN_INSTANT,
        now + 480 <= MAX_INSTANT,
    ensures
        demo_dataset_ok(ds, now as int),
        ds.wf(),
{
    let rows = pr_rows();
    proof {
        lemma_pr_rows_bounds();
        assert(demo_pr_rows().len() == 34);
    }
    let mut prs: Vec<PullRequest> = Vec::new();
    let mut k: usize = 0;
    while k < rows.len()
        invariant
            rows_view(rows@) == demo_pr_rows(),
            rows@.len() == 34,
            k <= rows@.len(),
            valid_instant(now),
            now - 90 * 86400 >= MIN_INSTANT,
            forall|j: int|
                0 <= j < demo_pr_rows().len() ==> {
                    &&& 0 <= (#[trigger] demo_pr_rows()[j]).days_ago <= 10
                    &&& 0 <= demo_pr_rows()[j].cycle_hours <= 168
                    &&& 0 <= demo_pr_rows()[j].position < 12
                    &&& demo_pr_rows()[j].additions <= 800
                    &&& demo_pr_rows()[j].deletions <= 210
                    &&& demo_pr_rows()[j].cycle_hours <= 24 * demo_pr_rows()[j].days_ago + 3
                        * demo_pr_rows()[j].position
                },
            prs@.len() == k,
            forall|j: int| 0 <= j < k ==> demo_pr_ok(#[trigger] prs@[j], j, now as int),
            forall|j: int| 0 <= j < k ==> (#[trigger] prs@[j]).wf(),
        decreases rows@.len() - k,
    {
        let r = &rows[k];
        proof {
            assert(rows_view(rows@)[k as int] == demo_pr_rows()[k as int]);
        }
        let created = now - r.days_ago * 86400 - r.position * 3 * 3600;
        let merged = created + r.cycle_hours * 3600;
        let first_review = created + (r.cycle_hours / 4) * 3600;
        let number = 100 + k as u64;
        let mut title = "PR #".to_owned();
        let digits = decimal(number);
        title.append(digits.as_str());
        title.append(" in ");
        title.append(r.repo);
        let p = PullRequest {
            number,
            repo: r.repo.to_owned(),
            title,
            author: r.author.to_owned(),
            created_at: created,
            merged_at: Some(merged),
            closed_at: Some(merged),
            first_review_at: Some(first_review),
            additions: r.additions,
            deletions: r.deletions,
            changed_files: r.additions / 50 + 1,
            base_ref: "main".to_owned(),
        };
        proof {
            assert(p.title@ =~= "PR #"@ + decimal_text((100 + k) as nat) + " in "@ + r.repo@);
        }
        prs.push(p);
        k = k + 1;
    }
    let drows = deploy_rows();
    proof {
        assert(demo_deploy_rows().len() == 13);
    }
    let mut deployments: Vec<Deployment> = Vec::new();
    let mut k: usize = 0;
    while k < drows.len()
        invariant
            deploy_rows_view(drows@) == demo_deploy_rows(),
            drows@.len() == 13,
            k <= drows@.len(),
            valid_instant(now),
            now - 90 * 86400 >= MIN_INSTANT,
            deployments@.len() == k,
            forall|j: int| 0 <= j < k ==> demo_deploy_ok(#[trigger] deployments@[j], j, now as int),
            forall|j: int| 0 <= j < k ==> valid_instant(#[trigger] deployments@[j].created_at),
        decreases drows@.len() - k,
    {
        let r = &drows[k];
        proof {
            assert(deploy_rows_view(drows@)[k as int] == demo_deploy_rows()[k as int]);
        }
        let days_ago = (k as i64) * 5 + 1;
        let mut sha = "abc".to_owned();
        let hex = hex4(k as u64);
        sha.append(hex.as_str());
        let d = Deployment {
            id: k as u64 + 1,
            repo: r.repo.to_owned(),
            environment: "production".to_owned(),
            sha,
            created_at: now - days_ago * 86400,
            status: if r.success {
                DeploymentStatus::Success
            } else {
                DeploymentStatus::Failure
            },
        };
        deployments.push(d);
        k = k + 1;
    }
    let rrows = run_rows();
    proof {
        lemma_run_rows_bounds();
    }
    let mut ci_runs: Vec<WorkflowRun> = Vec::new();
    let mut k: usize = 0;
    while k < rrows.len()
        invariant
            run_rows_view(rrows@) == demo_run_rows(),
            k <= rrows@.len(),
            valid_instant(now),
            now + 480 <= MAX_INSTANT,
            now - 90 * 86400 >= MIN_INSTANT,
            forall|j: int| 0 <= j < demo_run_rows().len() ==> 0 <= (#[trigger] demo_run_rows()[j]).position < 10,
            ci_runs@.len() == k,
            forall|j: int| 0 <= j < k ==> demo_run_ok(#[trigger] ci_runs@[j], j, now as int),
            forall|j: int| 0 <= j < k ==> (#[trigger] ci_runs@[j]).wf(),
        decreases rrows@.len() - k,
    {
        let r = &rrows[k];
        proof {
            assert(run_rows_view(rrows@)[k as int] == demo_run_rows()[k as int]);
        }
        let created = now - r.position * 7 * 86400;
        let conclusion = if r.passed {
            "success".to_owned()
        } else {
            "failure".to_owned()
        };
        let w = WorkflowRun {
            id: k as u64 + 1,
            repo: r.repo.to_owned(),
            name: r.name.to_owned(),
            branch: "main".to_owned(),
            conclusion: Some(conclusion),
            created_at: created,
            updated_at: created + 480,
            duration_secs: Some(480),
        };
        ci_runs.push(w);
        k = k + 1;
    }
    let ds = Dataset {
        owner: "acme".to_owned(),
        since: Some(now - 90 * 86400),
        until: Some(now),
        prs,
        deployments,
        ci_runs,
    };
    proof {
        assert(ds.prs@.len() == demo_pr_rows().len());
    }
    ds
}

/// The demonstration dataset as of the current time; `None` when the clock
/// reads within eight minutes of the last instant a timestamp can hold.
pub fn make_dataset() -> (ds: Option<Dataset>)
    ensures
        exists|now: i64|
            0 <= now && valid_instant(now) && match ds {
                Some(d) => now + 480 <= MAX_INSTANT && demo_dataset_ok(d, now as int) && d.wf(),
                None => now + 480 > MAX_INSTANT,
            },
{
    let now = now_seconds();
    if now > MAX_INSTANT - 480 {
        None
    } else {
        Some(make_dataset_at(now))
    }
}

} // verus!
