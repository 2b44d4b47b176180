use devflow::clock::Instant;
use devflow::breakdown::{per_author_at, per_repo_at};
use devflow::demo::{make_dataset, make_dataset_at};
use devflow::metrics::calculate_at;
use devflow::types::{DeploymentStatus, DoraLevel, Ratio};

const DAY: i64 = 86400;
const HOUR: i64 = 3600;
const NOW: i64 = 1_750_000_000;

#[test]
fn demo_dataset_shape() {
    let ds = make_dataset_at(NOW);
    assert_eq!(ds.owner, "acme");
    assert_eq!(ds.since, Some(NOW - 90 * DAY));
    assert_eq!(ds.until, Some(NOW));
    assert_eq!(ds.prs.len(), 34);
    assert_eq!(ds.deployments.len(), 13);
    assert_eq!(ds.ci_runs.len(), 40);
}

#[test]
fn demo_pull_requests() {
    let ds = make_dataset_at(NOW);
    let p = &ds.prs[0];
    assert_eq!(p.number, 100);
    assert_eq!(p.repo, "api-service");
    assert_eq!(p.title, "PR #100 in api-service");
    assert_eq!(p.author, "alice");
    assert_eq!(p.created_at, NOW - 2 * DAY);
    assert_eq!(p.merged_at, Some(NOW - 2 * DAY + 26 * HOUR));
    assert_eq!(p.closed_at, p.merged_at);
    assert_eq!(p.first_review_at, Some(NOW - 2 * DAY + 6 * HOUR));
    assert_eq!((p.additions, p.deletions, p.changed_files), (120, 45, 3));
    assert_eq!(p.base_ref, "main");
    let q = &ds.prs[9];
    assert_eq!(q.author, "frank");
    assert_eq!(q.created_at, NOW - 3 * DAY - 27 * HOUR);
    let last = &ds.prs[33];
    assert_eq!(last.number, 133);
    assert_eq!(last.title, "PR #133 in auth-service");
    assert_eq!(last.author, "eve");
    assert_eq!(last.changed_files, 2);
}

#[test]
fn demo_deployments() {
    let ds = make_dataset_at(NOW);
    let d = &ds.deployments[0];
    assert_eq!(d.id, 1);
    assert_eq!(d.repo, "api-service");
    assert_eq!(d.environment, "production");
    assert_eq!(d.sha, "abc0000");
    assert_eq!(d.created_at, NOW - DAY);
    assert_eq!(d.status, DeploymentStatus::Success);
    assert_eq!(ds.deployments[2].status, DeploymentStatus::Failure);
    assert_eq!(ds.deployments[12].sha, "abc000c");
    assert_eq!(ds.deployments[12].created_at, NOW - 61 * DAY);
    assert_eq!(ds.deployments[12].repo, "auth-service");
}

#[test]
fn demo_runs() {
    let ds = make_dataset_at(NOW);
    let r = &ds.ci_runs[0];
    assert_eq!(r.id, 1);
    assert_eq!(r.repo, "api-service");
    assert_eq!(r.name, "CI");
    assert_eq!(r.branch, "main");
    assert_eq!(r.conclusion.as_deref(), Some("success"));
    assert_eq!(r.created_at, NOW);
    assert_eq!(r.updated_at, NOW + 480);
    assert_eq!(r.duration_secs, Some(480));
    assert_eq!(ds.ci_runs[6].conclusion.as_deref(), Some("failure"));
    assert_eq!(ds.ci_runs[6].created_at, NOW - 42 * DAY);
    assert_eq!(ds.ci_runs[39].id, 40);
    assert_eq!(ds.ci_runs[39].name, "Security & Test");
    let failures = ds.ci_runs.iter().filter(|r| r.failed()).count();
    assert_eq!(failures, 4);
}

#[test]
fn demo_metrics() {
    let ds = make_dataset_at(NOW);
    let m = calculate_at(&ds, 90, Instant::at(NOW));
    assert_eq!(m.deployment_frequency.events, 11);
    assert_eq!(m.deployment_frequency.level, DoraLevel::Medium);
    assert_eq!(m.change_failure_rate.rate, Ratio { num: 2, den: 13 });
    assert_eq!(m.change_failure_rate.level, DoraLevel::Low);
    // both failures recovered after five days: 6 and 41 days ago
    let mut recovered = vec![0i64; 90];
    recovered[83] = 2 * 5 * 24 * 60;
    recovered[48] = 2 * 5 * 24 * 60;
    assert_eq!(m.mean_time_to_recovery.history, recovered);
    assert_eq!(m.mean_time_to_recovery.median_minutes_x2, 2 * 5 * 24 * 60);
    assert_eq!(m.mean_time_to_recovery.level, DoraLevel::Medium);
    assert_eq!(m.lead_time.median_minutes_x2, 3720);
    assert_eq!(m.lead_time.level, DoraLevel::High);
    assert_eq!(m.lead_time.history.len(), 90);
    assert_eq!(m.change_failure_rate.history.len(), 90);
    assert_eq!(m.pr_cycle_time.level, DoraLevel::High);
    assert_eq!(m.review_turnaround.median_minutes_x2, 900);
    assert_eq!(m.review_turnaround.level, DoraLevel::High);
    assert_eq!(m.ci_pass_rate.rate, Ratio { num: 36, den: 40 });
    assert_eq!(m.ci_pass_rate.level, DoraLevel::High);
    assert_eq!(m.median_pr_size_x2, 488);
}

#[test]
fn demo_breakdowns() {
    let ds = make_dataset_at(NOW);
    let r = per_repo_at(&ds, 90, Instant::at(NOW));
    let names: Vec<&str> = r.iter().map(|s| s.repo.as_str()).collect();
    assert_eq!(names, vec!["api-service", "frontend", "infra", "auth-service"]);
    let counts: Vec<usize> = r.iter().map(|s| s.pr_count).collect();
    assert_eq!(counts, vec![12, 10, 6, 6]);
    assert_eq!(r[0].deploy_count, 4);
    assert_eq!(r[0].ci_pass_rate, Ratio { num: 9, den: 10 });
    let a = per_author_at(&ds, 90, Instant::at(NOW));
    assert_eq!(a[0].author, "alice");
    assert_eq!(a[0].pr_count, 8);
}

#[test]
fn demo_dataset_now() {
    let ds = make_dataset().unwrap();
    assert_eq!(ds.prs.len(), 34);
    let until = ds.until.unwrap();
    assert_eq!(ds.since, Some(until - 90 * DAY));
    assert_eq!(ds.ci_runs[0].created_at, until);
}
