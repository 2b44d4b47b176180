use devflow::clock::Instant;
use devflow::sorting::{rank_desc, sort_ascending};
use devflow::summary::{
    band_at_most_exec, ci_pass_rate, daily_medians_of, failure_rate, frequency, median_x2_of_sorted,
    summarize_minutes,
};
use devflow::types::{DoraLevel, Ratio, WorkflowRun};

const DAY: i64 = 86400;
const NOW: i64 = 1_700_000_000;

fn ci_run(created_at: i64, conclusion: &str) -> WorkflowRun {
    WorkflowRun {
        id: 1,
        repo: "api".to_string(),
        name: "CI".to_string(),
        branch: "main".to_string(),
        conclusion: Some(conclusion.to_string()),
        created_at,
        updated_at: created_at + 480,
        duration_secs: Some(480),
    }
}

#[test]
fn median_of_odd_and_even_lengths() {
    assert_eq!(median_x2_of_sorted(&vec![]), 0);
    assert_eq!(median_x2_of_sorted(&vec![5]), 10);
    assert_eq!(median_x2_of_sorted(&vec![1, 2, 9]), 4);
    assert_eq!(median_x2_of_sorted(&vec![1, 2, 9, 10]), 11);
    assert_eq!(median_x2_of_sorted(&vec![-3, 1]), -2);
}

#[test]
fn bands_are_inclusive_upper_bounds() {
    assert_eq!(band_at_most_exec(2880, 2880, 20160, 86400), DoraLevel::Elite);
    assert_eq!(band_at_most_exec(2881, 2880, 20160, 86400), DoraLevel::High);
    assert_eq!(band_at_most_exec(20160, 2880, 20160, 86400), DoraLevel::High);
    assert_eq!(band_at_most_exec(86400, 2880, 20160, 86400), DoraLevel::Medium);
    assert_eq!(band_at_most_exec(86401, 2880, 20160, 86400), DoraLevel::Low);
    assert_eq!(band_at_most_exec(-5, 2880, 20160, 86400), DoraLevel::Elite);
}

#[test]
fn sorting_helpers() {
    assert_eq!(sort_ascending(&vec![3, -1, 2, 3, 0]), vec![-1, 0, 2, 3, 3]);
    assert_eq!(sort_ascending(&vec![]), Vec::<i64>::new());
    // descending by key, equal keys keep their order
    assert_eq!(rank_desc(&vec![5, 9, 5, 1, 9]), vec![1, 4, 0, 2, 3]);
    assert_eq!(rank_desc(&vec![]), Vec::<usize>::new());
}

#[test]
fn summary_without_durations_has_no_data() {
    let m = summarize_minutes(&vec![], vec![0, 0], 2880, 20160, 86400);
    assert_eq!(m.level, DoraLevel::NoData);
    assert_eq!(m.median_minutes_x2, 0);
    assert!(m.history.is_empty());
}

#[test]
fn summary_of_durations() {
    // 90 minutes, 30 minutes, 600 minutes: median 90 minutes
    let m = summarize_minutes(&vec![90, 30, 600], vec![60, 0, 180], 2880, 20160, 86400);
    assert_eq!(m.median_minutes_x2, 180);
    assert_eq!(m.level, DoraLevel::Elite);
    assert_eq!(m.history, vec![60, 0, 180]);
    // two durations: the median is their mean, 2880 minutes (48 hours)
    let m = summarize_minutes(&vec![2000, 3760], vec![], 480, 2880, 8640);
    assert_eq!(m.median_minutes_x2, 5760);
    assert_eq!(m.level, DoraLevel::Medium);
    let m = summarize_minutes(&vec![1000, 1000], vec![], 480, 2880, 8640);
    assert_eq!(m.level, DoraLevel::High);
    let mins: Vec<i64> = (0..40).rev().collect();
    // median of 0..40 is (19 + 20) / 2
    let m = summarize_minutes(&mins, vec![], 10, 20, 30);
    assert_eq!(m.median_minutes_x2, 39);
    assert_eq!(m.level, DoraLevel::Low);
}

#[test]
fn daily_medians_per_day() {
    // (end instant, minutes): two on the last day, one two days before, one outside a 3-day window
    let events = vec![(NOW - 10, 30), (NOW - 2 * DAY - 5, 600), (NOW - 20, 90), (NOW - 7 * DAY, 5), (NOW - 30, 200)];
    // last day: 30, 90, 200 -> median 90
    assert_eq!(daily_medians_of(&events, Instant::at(NOW), 3), vec![1200, 0, 180]);
    assert_eq!(daily_medians_of(&events, Instant::at(NOW), 0), Vec::<i64>::new());
    // two on one day: the mean of the two
    let events = vec![(NOW - 10, 30), (NOW - 20, 91)];
    assert_eq!(daily_medians_of(&events, Instant::at(NOW), 1), vec![121]);
}

#[test]
fn frequency_without_events() {
    let m = frequency(&vec![], 30, Instant::at(NOW));
    assert_eq!(m.events, 0);
    assert_eq!(m.window_days, 30);
    assert_eq!(m.level, DoraLevel::NoData);
    assert!(m.history.is_empty());
}

#[test]
fn frequency_levels() {
    let daily: Vec<i64> = (0..7).map(|i| NOW - i * DAY).collect();
    assert_eq!(frequency(&daily, 7, Instant::at(NOW)).level, DoraLevel::Elite);
    assert_eq!(frequency(&daily[..1].to_vec(), 7, Instant::at(NOW)).level, DoraLevel::High);
    assert_eq!(frequency(&daily[..1].to_vec(), 8, Instant::at(NOW)).level, DoraLevel::Medium);
    assert_eq!(frequency(&daily[..1].to_vec(), 30, Instant::at(NOW)).level, DoraLevel::Medium);
    assert_eq!(frequency(&daily[..1].to_vec(), 31, Instant::at(NOW)).level, DoraLevel::Low);
}

#[test]
fn frequency_daily_history() {
    // ages: 0 days, 0 days, 2 days, 5 days (outside a 4-day window), and one in the future
    let stamps = vec![NOW, NOW - 100, NOW - 2 * DAY - 5, NOW - 5 * DAY, NOW + 2 * DAY];
    let m = frequency(&stamps, 4, Instant::at(NOW));
    assert_eq!(m.events, 5);
    assert_eq!(m.level, DoraLevel::Elite);
    assert_eq!(m.history, vec![0, 1, 0, 2]);
}

#[test]
fn failure_rate_levels() {
    let m = failure_rate(0, 0, vec![Ratio { num: 0, den: 1 }]);
    assert_eq!(m.rate, Ratio { num: 0, den: 1 });
    assert_eq!(m.level, DoraLevel::NoData);
    assert!(m.history.is_empty());
    let m = failure_rate(19, 1, vec![]);
    assert_eq!(m.rate, Ratio { num: 1, den: 20 });
    assert_eq!(m.level, DoraLevel::Elite);
    let m = failure_rate(9, 1, vec![]);
    assert_eq!(m.level, DoraLevel::High);
    let m = failure_rate(17, 3, vec![]);
    assert_eq!(m.level, DoraLevel::Medium);
    let daily = vec![Ratio { num: 0, den: 1 }, Ratio { num: 1, den: 4 }];
    let m = failure_rate(3, 1, daily.clone());
    assert_eq!(m.rate, Ratio { num: 1, den: 4 });
    assert_eq!(m.level, DoraLevel::Low);
    assert_eq!(m.history, daily);
}

#[test]
fn ci_rate_without_runs() {
    let since = NOW - 30 * DAY;
    let m = ci_pass_rate(&vec![ci_run(since - 1, "success")], since, Instant::at(NOW), 30);
    assert_eq!(m.rate, Ratio { num: 0, den: 1 });
    assert_eq!(m.level, DoraLevel::NoData);
    assert!(m.history.is_empty());
}

#[test]
fn ci_rate_and_daily_history() {
    let since = NOW - 3 * DAY;
    let runs = vec![
        ci_run(NOW - 10, "success"),
        ci_run(NOW - 20, "failure"),
        ci_run(NOW - 2 * DAY - 1, "success"),
        ci_run(since - 1, "failure"),
    ];
    let m = ci_pass_rate(&runs, since, Instant::at(NOW), 3);
    assert_eq!(m.rate, Ratio { num: 2, den: 3 });
    assert_eq!(m.level, DoraLevel::Low);
    assert_eq!(
        m.history,
        vec![Ratio { num: 1, den: 1 }, Ratio { num: 1, den: 1 }, Ratio { num: 1, den: 2 }]
    );
}

#[test]
fn ci_rate_levels() {
    let since = NOW - DAY;
    let mut runs: Vec<WorkflowRun> = (0..19).map(|_| ci_run(NOW - 5, "success")).collect();
    runs.push(ci_run(NOW - 5, "failure"));
    assert_eq!(ci_pass_rate(&runs, since, Instant::at(NOW), 1).level, DoraLevel::Elite);
    runs.push(ci_run(NOW - 5, "failure"));
    // 19 of 21
    assert_eq!(ci_pass_rate(&runs, since, Instant::at(NOW), 1).level, DoraLevel::High);
    let runs: Vec<WorkflowRun> = (0..10).map(|i| ci_run(NOW - 5, if i < 7 { "success" } else { "cancelled" })).collect();
    assert_eq!(ci_pass_rate(&runs, since, Instant::at(NOW), 1).level, DoraLevel::Medium);
}

#[test]
fn ci_rate_with_an_empty_window_has_one_day() {
    let m = ci_pass_rate(&vec![ci_run(NOW, "success")], NOW, Instant::at(NOW), 0);
    assert_eq!(m.rate, Ratio { num: 1, den: 1 });
    assert_eq!(m.history, vec![Ratio { num: 1, den: 1 }]);
}
