use devflow::app::{App, Flow, Key, LoadState, TAB_COUNT};
use devflow::demo::make_dataset_at;
use devflow::types::{AuthorStats, Mean, RepoStats};

fn repo_row(name: &str) -> RepoStats {
    RepoStats {
        repo: name.to_string(),
        pr_count: 1,
        merged_count: 1,
        avg_cycle_minutes: Mean { total: 60, count: 1 },
        avg_review_minutes: Mean { total: 0, count: 0 },
        ci_pass_rate: devflow::types::Ratio { num: 1, den: 1 },
        deploy_count: 0,
    }
}

fn author_row(name: &str) -> AuthorStats {
    AuthorStats {
        author: name.to_string(),
        pr_count: 1,
        merged_count: 0,
        avg_cycle_minutes: Mean { total: 0, count: 0 },
        avg_pr_size: Mean { total: 10, count: 1 },
        reviews_given: 0,
    }
}

#[test]
fn new_app_is_loading_on_the_first_tab() {
    let a = App::new(true, 90);
    assert!(a.demo);
    assert!(matches!(a.load_state, LoadState::Loading));
    assert_eq!(a.tab, 0);
    assert_eq!(a.selected, 0);
    assert!(a.dataset.is_none());
    assert!(a.metrics.is_none());
    assert!(a.repo_stats.is_empty());
    assert!(a.author_stats.is_empty());
    assert_eq!(a.lookback_days, 90);
    assert_eq!(App::new(false, 14).lookback_days, 14);
    assert!(!App::new(false, 90).demo);
}

#[test]
fn tabs_wrap_around() {
    let mut a = App::new(false, 90);
    a.selected = 3;
    a.next_tab();
    assert_eq!(a.tab, 1);
    assert_eq!(a.selected, 0);
    a.next_tab();
    a.next_tab();
    a.next_tab();
    assert_eq!(a.tab, 0);
    a.prev_tab();
    assert_eq!(a.tab, TAB_COUNT - 1);
    a.next_tab();
    assert_eq!(a.tab, 0);
}

#[test]
fn selection_stays_within_the_table() {
    let mut a = App::new(false, 90);
    a.repo_stats = vec![repo_row("a"), repo_row("b"), repo_row("c")];
    a.author_stats = vec![author_row("x")];
    assert_eq!(a.current_list_len(), 0);
    a.move_down();
    assert_eq!(a.selected, 0);
    a.next_tab();
    assert_eq!(a.current_list_len(), 3);
    a.move_down();
    a.move_down();
    a.move_down();
    a.move_down();
    assert_eq!(a.selected, 2);
    a.move_up();
    assert_eq!(a.selected, 1);
    a.move_up();
    a.move_up();
    assert_eq!(a.selected, 0);
    a.next_tab();
    assert_eq!(a.current_list_len(), 1);
    a.move_down();
    assert_eq!(a.selected, 0);
    a.next_tab();
    assert_eq!(a.current_list_len(), 0);
}

#[test]
fn loading_data_fills_the_tables() {
    let mut a = App::new(true, 90);
    a.refresh();
    a.on_data_loaded(make_dataset_at(1_750_000_000));
    assert!(matches!(a.load_state, LoadState::Loaded));
    assert!(a.metrics.is_some());
    assert_eq!(a.dataset.as_ref().unwrap().prs.len(), 34);
    let repos: Vec<&str> = a.repo_stats.iter().map(|r| r.repo.as_str()).collect();
    assert_eq!(repos, vec!["api-service", "frontend", "infra", "auth-service"]);
    assert_eq!(a.author_stats.len(), 6);
    a.tab = 1;
    assert_eq!(a.current_list_len(), 4);
    a.tab = 2;
    assert_eq!(a.current_list_len(), 6);
    a.tab = 3;
    assert_eq!(a.current_list_len(), 40);
}

#[test]
fn refresh_drops_metrics() {
    let mut a = App::new(false, 90);
    a.on_data_loaded(make_dataset_at(1_750_000_000));
    a.tab = 2;
    a.selected = 1;
    a.refresh();
    assert!(matches!(a.load_state, LoadState::Loading));
    assert!(a.metrics.is_none());
    assert_eq!(a.tab, 2);
    assert_eq!(a.selected, 1);
    assert!(a.dataset.is_some());
}

#[test]
fn fetch_errors_are_kept() {
    let mut a = App::new(false, 90);
    a.on_fetch_result(Err("GitHub API error 401 Unauthorized: Bad credentials".to_string()));
    match &a.load_state {
        LoadState::Error(msg) => assert_eq!(msg, "GitHub API error 401 Unauthorized: Bad credentials"),
        _ => panic!("expected an error state"),
    }
    assert!(a.dataset.is_none());
    a.on_fetch_result(Ok(make_dataset_at(1_750_000_000)));
    assert!(matches!(a.load_state, LoadState::Loaded));
}

#[test]
fn keys_drive_the_dashboard() {
    let mut a = App::new(false, 90);
    a.repo_stats = vec![repo_row("a"), repo_row("b")];
    assert_eq!(a.handle_key(Key::Char('x'), false), Flow::Continue);
    assert_eq!(a.handle_key(Key::Other, false), Flow::Continue);
    assert_eq!(a.handle_key(Key::Tab, false), Flow::Continue);
    assert_eq!(a.tab, 1);
    assert_eq!(a.handle_key(Key::Char('j'), false), Flow::Continue);
    assert_eq!(a.selected, 1);
    a.handle_key(Key::Down, false);
    assert_eq!(a.selected, 1);
    a.handle_key(Key::Char('k'), false);
    assert_eq!(a.selected, 0);
    a.handle_key(Key::Char('j'), false);
    a.handle_key(Key::Up, false);
    assert_eq!(a.selected, 0);
    a.handle_key(Key::Char('l'), false);
    assert_eq!(a.tab, 2);
    a.handle_key(Key::Char('h'), false);
    assert_eq!(a.tab, 1);
    a.handle_key(Key::BackTab, false);
    assert_eq!(a.tab, 0);
    a.handle_key(Key::BackTab, false);
    assert_eq!(a.tab, 3);
    assert_eq!(a.handle_key(Key::Char('r'), false), Flow::Fetch);
    assert!(matches!(a.load_state, LoadState::Loading));
    assert_eq!(a.handle_key(Key::Char('c'), false), Flow::Continue);
    assert_eq!(a.handle_key(Key::Char('c'), true), Flow::Quit);
    assert_eq!(a.handle_key(Key::Char('q'), false), Flow::Quit);
    assert_eq!(a.handle_key(Key::Char('q'), true), Flow::Quit);
}

#[test]
fn loaded_metrics_cover_the_configured_window() {
    let now = std::time::SystemTime::now()
        .duration_since(std::time::UNIX_EPOCH)
        .unwrap()
        .as_secs() as i64;
    let mut a = App::new(false, 14);
    a.on_data_loaded(make_dataset_at(now - 3600));
    let m = a.metrics.as_ref().unwrap();
    assert_eq!(m.deployment_frequency.window_days, 14);
    assert_eq!(m.ci_pass_rate.history.len(), 14);
    // demo runs are weekly: an hour ago and a week before that fall in the window
    assert_eq!(m.ci_pass_rate.rate.den, 8);
}

#[test]
fn keys_from_a_tab_past_the_last() {
    let mut a = App::new(false, 90);
    a.tab = 7;
    a.handle_key(Key::Tab, false);
    assert_eq!(a.tab, 0);
    a.tab = 7;
    a.handle_key(Key::BackTab, false);
    assert_eq!(a.tab, 2);
    a.tab = 7;
    assert_eq!(a.handle_key(Key::Char('j'), false), Flow::Continue);
    assert_eq!(a.current_list_len(), 0);
}
