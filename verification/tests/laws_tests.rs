use devflow::clock::Instant;
use devflow::breakdown::{per_author_at, per_repo_at};
use devflow::config::parse_repo_list;
use devflow::demo::make_dataset_at;
use devflow::metrics::calculate_at;
use devflow::types::{DoraLevel, Ratio};

const NOW: i64 = 1_750_000_000;
const DAY: i64 = 86400;

fn is_fraction(r: &Ratio) -> bool {
    r.den > 0 && r.num <= r.den
}

#[test]
fn medians_lie_between_extremes() {
    let ds = make_dataset_at(NOW);
    let m = calculate_at(&ds, 90, Instant::at(NOW));
    // demo durations run from 8 to 168 hours; recoveries all take 5 days
    for d in [&m.lead_time, &m.pr_cycle_time] {
        assert!(2 * 8 * 60 <= d.median_minutes_x2 && d.median_minutes_x2 <= 2 * 168 * 60);
    }
    assert!(2 * 2 * 60 <= m.review_turnaround.median_minutes_x2);
    assert!(m.review_turnaround.median_minutes_x2 <= 2 * 42 * 60);
    assert_eq!(m.mean_time_to_recovery.median_minutes_x2, 2 * 5 * 24 * 60);
}

#[test]
fn rates_are_fractions_between_zero_and_one() {
    for lookback in [0u32, 1, 7, 30, 90] {
        let ds = make_dataset_at(NOW);
        let m = calculate_at(&ds, lookback, Instant::at(NOW));
        assert!(is_fraction(&m.ci_pass_rate.rate));
        assert!(is_fraction(&m.change_failure_rate.rate));
        assert!(m.ci_pass_rate.history.iter().all(is_fraction));
        assert!(m.change_failure_rate.history.iter().all(is_fraction));
        for r in per_repo_at(&ds, lookback, Instant::at(NOW)) {
            assert!(is_fraction(&r.ci_pass_rate));
            assert!(r.merged_count <= r.pr_count);
        }
    }
}

#[test]
fn histories_have_one_entry_per_day() {
    for lookback in [1u32, 7, 30, 90] {
        let ds = make_dataset_at(NOW);
        let m = calculate_at(&ds, lookback, Instant::at(NOW));
        if m.deployment_frequency.level != DoraLevel::NoData {
            assert_eq!(m.deployment_frequency.history.len(), lookback as usize);
        }
        if m.ci_pass_rate.level != DoraLevel::NoData {
            assert_eq!(m.ci_pass_rate.history.len(), lookback as usize);
        }
        for d in [&m.lead_time, &m.pr_cycle_time, &m.review_turnaround, &m.mean_time_to_recovery] {
            if d.level != DoraLevel::NoData {
                assert_eq!(d.history.len(), lookback as usize);
            }
        }
        if m.change_failure_rate.level != DoraLevel::NoData {
            assert_eq!(m.change_failure_rate.history.len(), lookback as usize);
        }
    }
    let m = calculate_at(&make_dataset_at(NOW), 0, Instant::at(NOW));
    assert_eq!(m.ci_pass_rate.history.len(), 1);
}

#[test]
fn breakdowns_are_ranked_and_distinct() {
    let ds = make_dataset_at(NOW);
    for lookback in [3u32, 5, 90] {
        let r = per_repo_at(&ds, lookback, Instant::at(NOW));
        assert!(r.windows(2).all(|w| w[0].pr_count >= w[1].pr_count));
        let a = per_author_at(&ds, lookback, Instant::at(NOW));
        assert!(a.windows(2).all(|w| w[0].pr_count >= w[1].pr_count));
        let mut names: Vec<&str> = a.iter().map(|s| s.author.as_str()).collect();
        names.sort();
        names.dedup();
        assert_eq!(names.len(), a.len());
        let in_window = ds.prs.iter().filter(|p| p.created_at >= NOW - lookback as i64 * DAY).count();
        assert_eq!(r.iter().map(|s| s.pr_count).sum::<usize>(), in_window);
        assert_eq!(a.iter().map(|s| s.pr_count).sum::<usize>(), in_window);
    }
}

#[test]
fn repo_names_are_trimmed_and_non_empty() {
    for input in [" a , b,,", "\u{2003}x\u{2003},", ",,,", "one"] {
        for name in parse_repo_list(Some(input)) {
            assert!(!name.is_empty());
            assert_eq!(name.trim(), name);
        }
    }
}
