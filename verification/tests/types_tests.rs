use devflow::app::Tab;
use devflow::types::{Dataset, DoraLevel, PullRequest, WorkflowRun};

fn pr_with_lines(additions: u32, deletions: u32) -> PullRequest {
    PullRequest {
        number: 1,
        repo: "api".to_string(),
        title: "t".to_string(),
        author: "alice".to_string(),
        created_at: 0,
        merged_at: None,
        closed_at: None,
        first_review_at: None,
        additions,
        deletions,
        changed_files: 1,
        base_ref: "main".to_string(),
    }
}

fn run_with(conclusion: Option<&str>) -> WorkflowRun {
    WorkflowRun {
        id: 1,
        repo: "api".to_string(),
        name: "CI".to_string(),
        branch: "main".to_string(),
        conclusion: conclusion.map(|c| c.to_string()),
        created_at: 0,
        updated_at: 60,
        duration_secs: Some(60),
    }
}

#[test]
fn level_labels() {
    assert_eq!(DoraLevel::Elite.label(), "Elite");
    assert_eq!(DoraLevel::High.label(), "High");
    assert_eq!(DoraLevel::Medium.label(), "Medium");
    assert_eq!(DoraLevel::Low.label(), "Low");
    assert_eq!(DoraLevel::NoData.label(), "No data");
}

#[test]
fn level_colors() {
    assert_eq!(DoraLevel::Elite.color_hint(), "green");
    assert_eq!(DoraLevel::High.color_hint(), "cyan");
    assert_eq!(DoraLevel::Medium.color_hint(), "yellow");
    assert_eq!(DoraLevel::Low.color_hint(), "red");
    assert_eq!(DoraLevel::NoData.color_hint(), "gray");
}

#[test]
fn level_default_is_medium() {
    assert_eq!(DoraLevel::default(), DoraLevel::Medium);
}

#[test]
fn tab_titles() {
    assert_eq!(Tab::Overview.title(), "Overview");
    assert_eq!(Tab::Repos.title(), "Repos");
    assert_eq!(Tab::Authors.title(), "Authors");
    assert_eq!(Tab::CI.title(), "CI");
}

#[test]
fn tab_positions() {
    assert_eq!(Tab::at(0), Some(Tab::Overview));
    assert_eq!(Tab::at(1), Some(Tab::Repos));
    assert_eq!(Tab::at(2), Some(Tab::Authors));
    assert_eq!(Tab::at(3), Some(Tab::CI));
    assert_eq!(Tab::at(4), None);
}

#[test]
fn size_buckets_at_their_edges() {
    assert_eq!(pr_with_lines(0, 0).size_bucket(), "XS");
    assert_eq!(pr_with_lines(30, 20).size_bucket(), "XS");
    assert_eq!(pr_with_lines(30, 21).size_bucket(), "S");
    assert_eq!(pr_with_lines(200, 0).size_bucket(), "S");
    assert_eq!(pr_with_lines(201, 0).size_bucket(), "M");
    assert_eq!(pr_with_lines(250, 250).size_bucket(), "M");
    assert_eq!(pr_with_lines(500, 1).size_bucket(), "L");
    assert_eq!(pr_with_lines(999, 0).size_bucket(), "L");
    assert_eq!(pr_with_lines(999, 1).size_bucket(), "XL");
    assert_eq!(pr_with_lines(100_000, 5).size_bucket(), "XL");
}

#[test]
fn run_passed_and_failed() {
    assert!(run_with(Some("success")).passed());
    assert!(!run_with(Some("success")).failed());
    assert!(run_with(Some("failure")).failed());
    assert!(run_with(Some("timed_out")).failed());
    assert!(!run_with(Some("failure")).passed());
    assert!(!run_with(Some("cancelled")).passed());
    assert!(!run_with(Some("cancelled")).failed());
    assert!(!run_with(Some("Success")).passed());
    assert!(!run_with(None).passed());
    assert!(!run_with(None).failed());
}

#[test]
fn empty_dataset_by_default() {
    let d = Dataset::default();
    assert_eq!(d.owner, "");
    assert_eq!(d.since, None);
    assert_eq!(d.until, None);
    assert!(d.prs.is_empty());
    assert!(d.deployments.is_empty());
    assert!(d.ci_runs.is_empty());
}
