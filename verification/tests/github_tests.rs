use devflow::github::{
    bearer, cap_repo_list, repos_to_analyse, deployment_from_raw, next_page, pull_request_from_raw, recent_prefix_len,
    repo_names, repo_names_by_push, runs_from_page, scan_pr_page, status_from_response,
    status_from_state, RawDeployment, RawDeploymentStatus, RawPrDetail, RawPullRequest, RawRef,
    RawRepo, RawUser, RawWorkflowRun, RawWorkflowRunsPage, MAX_LISTED_REPOS, MAX_PR_PAGES,
};
use devflow::types::{Dataset, DeploymentStatus, PullRequest};

const SINCE: i64 = 1_000_000;

fn raw_pr(number: u64, updated_at: i64, merged: bool) -> RawPullRequest {
    RawPullRequest {
        number,
        title: format!("Change {}", number),
        user: RawUser { login: "alice".to_string() },
        created_at: updated_at - 500,
        updated_at,
        merged_at: if merged { Some(updated_at - 10) } else { None },
        closed_at: Some(updated_at - 10),
        base: RawRef { ref_name: "main".to_string() },
    }
}

fn raw_dep(id: u64, created_at: i64) -> RawDeployment {
    RawDeployment {
        id,
        sha: format!("sha{}", id),
        environment: "production".to_string(),
        created_at,
    }
}

fn raw_run(id: u64, created_at: i64, conclusion: Option<&str>) -> RawWorkflowRun {
    RawWorkflowRun {
        id,
        name: "CI".to_string(),
        head_branch: "main".to_string(),
        conclusion: conclusion.map(|c| c.to_string()),
        created_at,
        updated_at: created_at + 300,
    }
}

fn repo(name: &str, pushed_at: Option<i64>) -> RawRepo {
    RawRepo { name: name.to_string(), pushed_at }
}

#[test]
fn page_scan_keeps_merged_pull_requests_in_the_window() {
    let page = vec![
        raw_pr(1, SINCE + 50, true),
        raw_pr(2, SINCE + 40, false),
        raw_pr(3, SINCE, true),
        raw_pr(4, SINCE - 1, true),
        raw_pr(5, SINCE + 100, true),
    ];
    let scan = scan_pr_page(&page, SINCE);
    assert_eq!(scan.keep, vec![0, 2]);
    assert!(scan.stop);
}

#[test]
fn page_scan_of_a_page_fully_in_the_window() {
    let page = vec![raw_pr(1, SINCE + 5, false), raw_pr(2, SINCE + 4, true)];
    let scan = scan_pr_page(&page, SINCE);
    assert_eq!(scan.keep, vec![1]);
    assert!(!scan.stop);
    let scan = scan_pr_page(&vec![], SINCE);
    assert!(scan.keep.is_empty());
    assert!(!scan.stop);
}

#[test]
fn pages_stop_at_the_cap() {
    assert_eq!(MAX_PR_PAGES, 10);
    assert_eq!(next_page(1, 100, false), Some(2));
    assert_eq!(next_page(9, 100, false), Some(10));
    assert_eq!(next_page(10, 100, false), None);
    assert_eq!(next_page(3, 0, false), None);
    assert_eq!(next_page(3, 100, true), None);
}

#[test]
fn pull_request_from_listing_and_detail() {
    let raw = raw_pr(42, SINCE + 50, true);
    let detail = RawPrDetail { additions: 120, deletions: 30, changed_files: 4 };
    let p: PullRequest = pull_request_from_raw(&raw, "api-service", Some(&detail));
    assert_eq!(p.number, 42);
    assert_eq!(p.repo, "api-service");
    assert_eq!(p.title, "Change 42");
    assert_eq!(p.author, "alice");
    assert_eq!(p.created_at, SINCE - 450);
    assert_eq!(p.merged_at, Some(SINCE + 40));
    assert_eq!(p.closed_at, Some(SINCE + 40));
    assert_eq!(p.first_review_at, None);
    assert_eq!((p.additions, p.deletions, p.changed_files), (120, 30, 4));
    assert_eq!(p.base_ref, "main");
    let q = pull_request_from_raw(&raw, "api-service", None);
    assert_eq!((q.additions, q.deletions, q.changed_files), (0, 0, 0));
    let d = pull_request_from_raw(&raw, "x", Some(&RawPrDetail::default()));
    assert_eq!((d.additions, d.deletions, d.changed_files), (0, 0, 0));
}

#[test]
fn deployments_newest_first_up_to_the_window() {
    let raws = vec![raw_dep(1, SINCE + 10), raw_dep(2, SINCE), raw_dep(3, SINCE - 1), raw_dep(4, SINCE + 99)];
    assert_eq!(recent_prefix_len(&raws, SINCE), 2);
    assert_eq!(recent_prefix_len(&raws, SINCE + 11), 0);
    assert_eq!(recent_prefix_len(&vec![], SINCE), 0);
    assert_eq!(recent_prefix_len(&vec![raw_dep(1, SINCE + 10), raw_dep(2, SINCE)], SINCE), 2);
}

#[test]
fn deployment_states() {
    assert_eq!(status_from_state("success"), DeploymentStatus::Success);
    assert_eq!(status_from_state("failure"), DeploymentStatus::Failure);
    assert_eq!(status_from_state("error"), DeploymentStatus::Failure);
    assert_eq!(status_from_state("in_progress"), DeploymentStatus::InProgress);
    assert_eq!(status_from_state("pending"), DeploymentStatus::Pending);
    assert_eq!(status_from_state("queued"), DeploymentStatus::Other);
    assert_eq!(status_from_state("inactive"), DeploymentStatus::Other);
    assert_eq!(status_from_state("SUCCESS"), DeploymentStatus::Other);
}

#[test]
fn deployment_status_from_the_latest_status() {
    assert_eq!(status_from_response(None), DeploymentStatus::Other);
    assert_eq!(status_from_response(Some(&vec![])), DeploymentStatus::Pending);
    let v = vec![
        RawDeploymentStatus { state: "failure".to_string() },
        RawDeploymentStatus { state: "success".to_string() },
    ];
    assert_eq!(status_from_response(Some(&v)), DeploymentStatus::Failure);
}

#[test]
fn deployment_record() {
    let d = deployment_from_raw(&raw_dep(7, SINCE), "infra", DeploymentStatus::Success);
    assert_eq!(d.id, 7);
    assert_eq!(d.repo, "infra");
    assert_eq!(d.environment, "production");
    assert_eq!(d.sha, "sha7");
    assert_eq!(d.created_at, SINCE);
    assert_eq!(d.status, DeploymentStatus::Success);
}

#[test]
fn workflow_runs_in_the_window() {
    let page = RawWorkflowRunsPage {
        workflow_runs: vec![
            raw_run(1, SINCE + 100, Some("success")),
            raw_run(2, SINCE - 100, Some("failure")),
            raw_run(3, SINCE, None),
        ],
    };
    let v = runs_from_page(&page, "frontend", SINCE);
    assert_eq!(v.len(), 2);
    assert_eq!(v[0].id, 1);
    assert_eq!(v[0].repo, "frontend");
    assert_eq!(v[0].name, "CI");
    assert_eq!(v[0].branch, "main");
    assert_eq!(v[0].conclusion.as_deref(), Some("success"));
    assert_eq!(v[0].created_at, SINCE + 100);
    assert_eq!(v[0].updated_at, SINCE + 400);
    assert_eq!(v[0].duration_secs, Some(300));
    assert_eq!(v[1].id, 3);
    assert_eq!(v[1].conclusion, None);
}

#[test]
fn repositories_most_recently_pushed_first() {
    let raws = vec![
        repo("old", Some(100)),
        repo("never", None),
        repo("new", Some(900)),
        repo("mid", Some(500)),
        repo("also-new", Some(900)),
    ];
    assert_eq!(repo_names_by_push(&raws), vec!["new", "also-new", "mid", "old", "never"]);
    assert_eq!(repo_names(&raws), vec!["old", "never", "new", "mid", "also-new"]);
}

#[test]
fn repository_list_is_capped() {
    assert_eq!(MAX_LISTED_REPOS, 50);
    let mut names: Vec<String> = (0..60).map(|i| format!("r{}", i)).collect();
    cap_repo_list(&mut names);
    assert_eq!(names.len(), 50);
    assert_eq!(names[49], "r49");
    let mut few = vec!["a".to_string(), "b".to_string()];
    cap_repo_list(&mut few);
    assert_eq!(few, vec!["a", "b"]);
}

#[test]
fn capped_listing_keeps_the_most_recent() {
    let raws: Vec<RawRepo> = (0..55).map(|i| repo(&format!("r{}", i), Some(i as i64))).collect();
    let mut names = repo_names_by_push(&raws);
    cap_repo_list(&mut names);
    assert_eq!(names.len(), 50);
    assert_eq!(names[0], "r54");
    assert_eq!(names[49], "r5");
    assert!(!names.contains(&"r4".to_string()));
}

#[test]
fn authorization_header() {
    assert_eq!(bearer("ghp_abc"), "Bearer ghp_abc");
    assert_eq!(bearer(""), "Bearer ");
}

#[test]
fn dataset_collects_repositories() {
    let mut ds = Dataset::for_window("acme".to_string(), SINCE, SINCE + 90);
    assert_eq!(ds.owner, "acme");
    assert_eq!(ds.since, Some(SINCE));
    assert_eq!(ds.until, Some(SINCE + 90));
    let p = pull_request_from_raw(&raw_pr(1, SINCE + 5, true), "a", None);
    let d = deployment_from_raw(&raw_dep(1, SINCE), "a", DeploymentStatus::Pending);
    let page = RawWorkflowRunsPage { workflow_runs: vec![raw_run(1, SINCE + 1, Some("success"))] };
    let runs = runs_from_page(&page, "a", SINCE);
    ds.absorb(vec![p], vec![d], runs);
    let q = pull_request_from_raw(&raw_pr(2, SINCE + 5, true), "b", None);
    ds.absorb(vec![q], vec![], vec![]);
    assert_eq!(ds.prs.len(), 2);
    assert_eq!(ds.prs[0].repo, "a");
    assert_eq!(ds.prs[1].repo, "b");
    assert_eq!(ds.deployments.len(), 1);
    assert_eq!(ds.ci_runs.len(), 1);
    assert_eq!(ds.owner, "acme");
}

#[test]
fn configured_repositories_win_over_the_listing() {
    let configured = vec!["api".to_string(), "web".to_string()];
    let listed: Vec<String> = (0..60).map(|i| format!("r{}", i)).collect();
    assert_eq!(repos_to_analyse(&configured, listed.clone()), configured);
    let chosen = repos_to_analyse(&vec![], listed);
    assert_eq!(chosen.len(), 50);
    assert_eq!(chosen[0], "r0");
    assert_eq!(repos_to_analyse(&vec![], vec!["a".to_string()]), vec!["a"]);
}
