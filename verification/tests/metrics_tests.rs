use devflow::clock::Instant;
use devflow::breakdown::{per_author, per_author_at, per_repo, per_repo_at};
use devflow::metrics::{calculate, calculate_at};
use devflow::types::{
    Dataset, Deployment, DeploymentStatus, DoraLevel, Mean, PullRequest, Ratio, WorkflowRun,
};

const MIN: i64 = 60;
const HOUR: i64 = 3600;
const DAY: i64 = 86400;
const NOW: i64 = 1_700_000_000;

#[allow(clippy::too_many_arguments)]
fn pr(
    number: u64,
    repo: &str,
    author: &str,
    created_at: i64,
    merge_after: Option<i64>,
    review_after: Option<i64>,
    additions: u32,
    deletions: u32,
    base: &str,
) -> PullRequest {
    PullRequest {
        number,
        repo: repo.to_string(),
        title: format!("PR #{}", number),
        author: author.to_string(),
        created_at,
        merged_at: merge_after.map(|d| created_at + d),
        closed_at: merge_after.map(|d| created_at + d),
        first_review_at: review_after.map(|d| created_at + d),
        additions,
        deletions,
        changed_files: 1,
        base_ref: base.to_string(),
    }
}

fn dep(id: u64, repo: &str, created_at: i64, status: DeploymentStatus) -> Deployment {
    Deployment {
        id,
        repo: repo.to_string(),
        environment: "production".to_string(),
        sha: format!("abc{}", id),
        created_at,
        status,
    }
}

fn run(id: u64, repo: &str, created_at: i64, conclusion: &str) -> WorkflowRun {
    WorkflowRun {
        id,
        repo: repo.to_string(),
        name: "CI".to_string(),
        branch: "main".to_string(),
        conclusion: Some(conclusion.to_string()),
        created_at,
        updated_at: created_at + 8 * MIN,
        duration_secs: Some(8 * MIN),
    }
}

fn prs() -> Vec<PullRequest> {
    vec![
        pr(1, "api", "alice", NOW - 2 * DAY, Some(26 * HOUR), Some(2 * HOUR), 100, 20, "main"),
        pr(2, "api", "bob", NOW - 5 * DAY, Some(48 * HOUR), Some(12 * HOUR), 300, 80, "develop"),
        pr(3, "web", "alice", NOW - DAY, None, None, 10, 0, "main"),
        pr(4, "web", "carol", NOW - 40 * DAY, Some(HOUR), None, 5, 5, "main"),
    ]
}

fn dataset(deployments: Vec<Deployment>, ci_runs: Vec<WorkflowRun>) -> Dataset {
    Dataset {
        owner: "acme".to_string(),
        since: Some(NOW - 30 * DAY),
        until: Some(NOW),
        prs: prs(),
        deployments,
        ci_runs,
    }
}

fn deployments() -> Vec<Deployment> {
    vec![
        dep(1, "api", NOW - 10 * DAY, DeploymentStatus::Success),
        dep(2, "api", NOW - 8 * DAY, DeploymentStatus::Failure),
        dep(3, "api", NOW - 7 * DAY, DeploymentStatus::Success),
        dep(4, "api", NOW - 3 * DAY, DeploymentStatus::Failure),
        dep(5, "web", NOW - 2 * DAY, DeploymentStatus::Success),
        dep(6, "web", NOW - 50 * DAY, DeploymentStatus::Failure),
        dep(7, "web", NOW - 4 * DAY, DeploymentStatus::Pending),
    ]
}

fn runs() -> Vec<WorkflowRun> {
    vec![
        run(1, "api", NOW - HOUR, "success"),
        run(2, "api", NOW - DAY - 1, "failure"),
        run(3, "web", NOW - 40 * DAY, "success"),
    ]
}

#[test]
fn durations_of_pull_requests_in_the_window() {
    let m = calculate_at(&dataset(vec![], vec![]), 30, Instant::at(NOW));
    // merge times 26 h and 48 h: median 37 h
    assert_eq!(m.lead_time.median_minutes_x2, 2 * 37 * 60);
    assert_eq!(m.lead_time.level, DoraLevel::High);
    // daily medians: merged 22 hours ago (26 h) and 3 days ago (48 h)
    let mut merged = vec![0i64; 30];
    merged[29] = 2 * 26 * 60;
    merged[26] = 2 * 48 * 60;
    assert_eq!(m.lead_time.history, merged);
    assert_eq!(m.pr_cycle_time.median_minutes_x2, 2 * 37 * 60);
    assert_eq!(m.pr_cycle_time.level, DoraLevel::High);
    assert_eq!(m.pr_cycle_time.history, merged);
    // reviews after 2 h and 12 h: median 7 h
    assert_eq!(m.review_turnaround.median_minutes_x2, 2 * 7 * 60);
    assert_eq!(m.review_turnaround.level, DoraLevel::High);
    // reviewed 46 hours ago (2 h) and 4.5 days ago (12 h)
    let mut reviewed = vec![0i64; 30];
    reviewed[28] = 2 * 120;
    reviewed[25] = 2 * 720;
    assert_eq!(m.review_turnaround.history, reviewed);
    // sizes 120, 380 and 10 lines: median 120
    assert_eq!(m.median_pr_size_x2, 240);
}

#[test]
fn merges_to_main_stand_in_for_deployments() {
    let m = calculate_at(&dataset(vec![], vec![]), 30, Instant::at(NOW));
    let f = &m.deployment_frequency;
    assert_eq!(f.events, 1);
    assert_eq!(f.window_days, 30);
    assert_eq!(f.level, DoraLevel::Medium);
    let mut expected = vec![0u64; 30];
    expected[29] = 1;
    assert_eq!(f.history, expected);
    assert_eq!(m.change_failure_rate.level, DoraLevel::NoData);
    assert_eq!(m.change_failure_rate.rate, Ratio { num: 0, den: 1 });
    assert!(m.change_failure_rate.history.is_empty());
    assert_eq!(m.mean_time_to_recovery.level, DoraLevel::NoData);
    assert_eq!(m.mean_time_to_recovery.median_minutes_x2, 0);
    assert!(m.mean_time_to_recovery.history.is_empty());
    assert_eq!(m.ci_pass_rate.level, DoraLevel::NoData);
    assert!(m.ci_pass_rate.history.is_empty());
}

#[test]
fn deployments_drive_frequency_failures_and_recovery() {
    let m = calculate_at(&dataset(deployments(), vec![]), 30, Instant::at(NOW));
    let f = &m.deployment_frequency;
    assert_eq!(f.events, 3);
    assert_eq!(f.level, DoraLevel::Medium);
    let mut expected = vec![0u64; 30];
    expected[19] = 1;
    expected[22] = 1;
    expected[27] = 1;
    assert_eq!(f.history, expected);
    assert_eq!(m.change_failure_rate.rate, Ratio { num: 2, den: 5 });
    assert_eq!(m.change_failure_rate.level, DoraLevel::Low);
    let mut daily = vec![Ratio { num: 0, den: 1 }; 30];
    daily[21] = Ratio { num: 1, den: 1 };
    daily[26] = Ratio { num: 1, den: 1 };
    assert_eq!(m.change_failure_rate.history, daily);
    // the failure 8 days ago recovered a day later (7 days ago); the one 3 days ago did not recover
    let mut recovered = vec![0i64; 30];
    recovered[22] = 2 * 24 * 60;
    assert_eq!(m.mean_time_to_recovery.history, recovered);
    assert_eq!(m.mean_time_to_recovery.median_minutes_x2, 2 * 24 * 60);
    assert_eq!(m.mean_time_to_recovery.level, DoraLevel::High);
}

#[test]
fn recovery_without_any_recovered_failure_has_no_data() {
    let deps = vec![
        dep(1, "api", NOW - 3 * DAY, DeploymentStatus::Failure),
        dep(2, "web", NOW - 2 * DAY, DeploymentStatus::Success),
    ];
    let m = calculate_at(&dataset(deps, vec![]), 30, Instant::at(NOW));
    assert_eq!(m.mean_time_to_recovery.median_minutes_x2, 0);
    assert_eq!(m.mean_time_to_recovery.level, DoraLevel::NoData);
    assert!(m.mean_time_to_recovery.history.is_empty());
    assert_eq!(m.change_failure_rate.rate, Ratio { num: 1, den: 2 });
}

#[test]
fn only_pending_deployments_give_no_failure_rate() {
    let deps = vec![dep(1, "api", NOW - DAY, DeploymentStatus::Pending)];
    let m = calculate_at(&dataset(deps, vec![]), 30, Instant::at(NOW));
    assert_eq!(m.deployment_frequency.level, DoraLevel::NoData);
    assert_eq!(m.deployment_frequency.events, 0);
    assert_eq!(m.change_failure_rate.rate, Ratio { num: 0, den: 1 });
    assert_eq!(m.change_failure_rate.level, DoraLevel::NoData);
    assert!(m.change_failure_rate.history.is_empty());
}

#[test]
fn ci_pass_rate_over_the_window() {
    let m = calculate_at(&dataset(vec![], runs()), 30, Instant::at(NOW));
    let c = &m.ci_pass_rate;
    assert_eq!(c.rate, Ratio { num: 1, den: 2 });
    assert_eq!(c.level, DoraLevel::Low);
    let mut expected = vec![Ratio { num: 1, den: 1 }; 30];
    expected[28] = Ratio { num: 0, den: 1 };
    assert_eq!(c.history, expected);
}

#[test]
fn nothing_in_the_window_means_no_data() {
    let ds = Dataset {
        owner: "acme".to_string(),
        since: None,
        until: None,
        prs: vec![pr(1, "api", "alice", NOW - 100 * DAY, Some(HOUR), Some(HOUR), 1, 1, "main")],
        deployments: vec![],
        ci_runs: vec![],
    };
    let m = calculate_at(&ds, 30, Instant::at(NOW));
    assert_eq!(m.lead_time.level, DoraLevel::NoData);
    assert_eq!(m.pr_cycle_time.level, DoraLevel::NoData);
    assert_eq!(m.review_turnaround.level, DoraLevel::NoData);
    assert_eq!(m.deployment_frequency.level, DoraLevel::NoData);
    assert_eq!(m.median_pr_size_x2, 0);
}

#[test]
fn per_repo_breakdown() {
    let ds = dataset(deployments(), runs());
    let r = per_repo_at(&ds, 30, Instant::at(NOW));
    assert_eq!(r.len(), 2);
    assert_eq!(r[0].repo, "api");
    assert_eq!(r[0].pr_count, 2);
    assert_eq!(r[0].merged_count, 2);
    assert_eq!(r[0].avg_cycle_minutes, Mean { total: (26 + 48) * 60, count: 2 });
    assert_eq!(r[0].avg_review_minutes, Mean { total: 14 * 60, count: 2 });
    assert_eq!(r[0].ci_pass_rate, Ratio { num: 1, den: 2 });
    assert_eq!(r[0].deploy_count, 2);
    assert_eq!(r[1].repo, "web");
    assert_eq!(r[1].pr_count, 1);
    assert_eq!(r[1].merged_count, 0);
    assert_eq!(r[1].avg_cycle_minutes, Mean { total: 0, count: 0 });
    assert_eq!(r[1].avg_review_minutes, Mean { total: 0, count: 0 });
    assert_eq!(r[1].ci_pass_rate, Ratio { num: 1, den: 1 });
    assert_eq!(r[1].deploy_count, 1);
}

#[test]
fn per_author_breakdown() {
    let ds = dataset(vec![], vec![]);
    let a = per_author_at(&ds, 30, Instant::at(NOW));
    let names: Vec<&str> = a.iter().map(|s| s.author.as_str()).collect();
    assert_eq!(names, vec!["alice", "bob", "carol"]);
    assert_eq!(a[0].pr_count, 2);
    assert_eq!(a[0].merged_count, 1);
    assert_eq!(a[0].avg_cycle_minutes, Mean { total: 26 * 60, count: 1 });
    assert_eq!(a[0].avg_pr_size, Mean { total: 130, count: 2 });
    assert_eq!(a[0].reviews_given, 0);
    assert_eq!(a[1].pr_count, 1);
    assert_eq!(a[1].avg_pr_size, Mean { total: 380, count: 1 });
    // carol's only pull request is older than the window
    assert_eq!(a[2].pr_count, 0);
    assert_eq!(a[2].merged_count, 0);
    assert_eq!(a[2].avg_pr_size, Mean { total: 0, count: 0 });
}

#[test]
fn breakdown_ties_keep_first_appearance() {
    let ds = Dataset {
        owner: "acme".to_string(),
        since: None,
        until: None,
        prs: vec![
            pr(1, "zeta", "x", NOW - DAY, None, None, 1, 1, "main"),
            pr(2, "alpha", "y", NOW - DAY, None, None, 1, 1, "main"),
            pr(3, "mid", "y", NOW - DAY, None, None, 1, 1, "main"),
            pr(4, "mid", "x", NOW - DAY, None, None, 1, 1, "main"),
        ],
        deployments: vec![],
        ci_runs: vec![],
    };
    let r = per_repo_at(&ds, 30, Instant::at(NOW));
    let names: Vec<&str> = r.iter().map(|s| s.repo.as_str()).collect();
    assert_eq!(names, vec!["mid", "zeta", "alpha"]);
    let a = per_author_at(&ds, 30, Instant::at(NOW));
    let names: Vec<&str> = a.iter().map(|s| s.author.as_str()).collect();
    assert_eq!(names, vec!["x", "y"]);
}

#[test]
fn breakdowns_count_every_pull_request_once() {
    let ds = dataset(deployments(), runs());
    let in_window = ds.prs.iter().filter(|p| p.created_at >= NOW - 30 * DAY).count();
    let r = per_repo_at(&ds, 30, Instant::at(NOW));
    let a = per_author_at(&ds, 30, Instant::at(NOW));
    assert_eq!(r.iter().map(|s| s.pr_count).sum::<usize>(), in_window);
    assert_eq!(a.iter().map(|s| s.pr_count).sum::<usize>(), in_window);
}

fn system_now() -> i64 {
    std::time::SystemTime::now()
        .duration_since(std::time::UNIX_EPOCH)
        .unwrap()
        .as_secs() as i64
}

#[test]
fn metrics_over_the_window_ending_now() {
    let now = system_now();
    let ds = Dataset {
        owner: "acme".to_string(),
        since: None,
        until: None,
        prs: vec![
            pr(1, "api", "alice", now - 2 * DAY, Some(10 * HOUR), None, 1, 1, "main"),
            pr(2, "api", "alice", now - 20 * DAY, Some(30 * HOUR), None, 1, 1, "main"),
        ],
        deployments: vec![],
        ci_runs: vec![],
    };
    let m = calculate(&ds, 7).unwrap();
    // only the pull request of two days ago is in a 7-day window
    let mut week = vec![0i64; 7];
    week[5] = 2 * 10 * 60;
    assert_eq!(m.lead_time.history, week);
    assert_eq!(m.deployment_frequency.events, 1);
    assert_eq!(m.deployment_frequency.history.len(), 7);
    let m = calculate(&ds, 30).unwrap();
    assert_eq!(m.lead_time.history.len(), 30);
    assert_eq!(m.lead_time.history[28], 2 * 10 * 60);
    assert_eq!(m.lead_time.history[11], 2 * 30 * 60);
    assert_eq!(m.lead_time.median_minutes_x2, 40 * 60);
    let r = per_repo(&ds, 7).unwrap();
    assert_eq!(r[0].pr_count, 1);
    let a = per_author(&ds, 30).unwrap();
    assert_eq!(a[0].pr_count, 2);
}

#[test]
fn window_before_the_earliest_instant_gives_nothing() {
    let ds = Dataset::default();
    assert!(calculate(&ds, u32::MAX).is_none());
    assert!(per_repo(&ds, u32::MAX).is_none());
    assert!(per_author(&ds, u32::MAX).is_none());
    assert!(calculate(&ds, 90).is_some());
}

#[test]
fn older_items_change_no_metric() {
    let base = dataset(deployments(), runs());
    let mut more = dataset(deployments(), runs());
    more.prs.push(pr(9, "api", "zed", NOW - 31 * DAY, Some(HOUR), Some(HOUR), 1, 1, "main"));
    more.deployments.push(dep(9, "api", NOW - 31 * DAY, DeploymentStatus::Success));
    more.ci_runs.push(run(9, "api", NOW - 31 * DAY, "failure"));
    let a = calculate_at(&base, 30, Instant::at(NOW));
    let b = calculate_at(&more, 30, Instant::at(NOW));
    assert_eq!(format!("{:?}", a), format!("{:?}", b));
    // without in-window deployments, an older deployment does not switch off the proxy
    let mut proxy = dataset(vec![], vec![]);
    proxy.deployments.push(dep(9, "api", NOW - 31 * DAY, DeploymentStatus::Failure));
    let c = calculate_at(&proxy, 30, Instant::at(NOW));
    assert_eq!(c.deployment_frequency.events, 1);
    assert_eq!(c.change_failure_rate.level, DoraLevel::NoData);
}

#[test]
fn the_window_starts_at_the_fraction_of_a_second() {
    let ds = Dataset {
        owner: "acme".to_string(),
        since: None,
        until: None,
        prs: vec![pr(1, "api", "alice", NOW - 30 * DAY, Some(HOUR), None, 1, 1, "main")],
        deployments: vec![],
        ci_runs: vec![],
    };
    // exactly 30 days before a whole-second clock reading: inside the window
    let m = calculate_at(&ds, 30, Instant::at(NOW));
    assert_eq!(m.lead_time.median_minutes_x2, 2 * 60);
    // the clock a nanosecond later: the window starts after that pull request
    let later = Instant { secs: NOW, nanos: 1 };
    let m = calculate_at(&ds, 30, later);
    assert_eq!(m.lead_time.level, DoraLevel::NoData);
    assert_eq!(per_repo_at(&ds, 30, later)[0].pr_count, 0);
}
