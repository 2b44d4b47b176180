use devflow::clock::Instant;
use devflow::display::{ci_health, minutes_and_seconds, recent_first, Cadence, ConclusionKind, Health};
use devflow::summary::frequency;
use devflow::types::{DoraLevel, FrequencyMetric, Ratio, WorkflowRun};

fn freq(events: usize, window_days: u32, level: DoraLevel) -> FrequencyMetric {
    FrequencyMetric { events, window_days, level, history: vec![] }
}

fn run_at(created_at: i64, conclusion: Option<&str>) -> WorkflowRun {
    WorkflowRun {
        id: created_at as u64,
        repo: "api".to_string(),
        name: "CI".to_string(),
        branch: "main".to_string(),
        conclusion: conclusion.map(|c| c.to_string()),
        created_at,
        updated_at: created_at,
        duration_secs: None,
    }
}

#[test]
fn cadence_of_a_frequency() {
    assert_eq!(freq(0, 30, DoraLevel::NoData).cadence(), Cadence::NoData);
    assert_eq!(freq(30, 30, DoraLevel::Elite).cadence(), Cadence::PerDay);
    assert_eq!(freq(29, 30, DoraLevel::High).cadence(), Cadence::PerWeek);
    assert_eq!(freq(5, 35, DoraLevel::High).cadence(), Cadence::PerWeek);
    assert_eq!(freq(4, 35, DoraLevel::Medium).cadence(), Cadence::PerMonth);
}

#[test]
fn health_of_ci_rates() {
    assert_eq!(ci_health(&Ratio { num: 19, den: 20 }), Health::Good);
    assert_eq!(ci_health(&Ratio { num: 1, den: 1 }), Health::Good);
    assert_eq!(ci_health(&Ratio { num: 18, den: 20 }), Health::Fair);
    assert_eq!(ci_health(&Ratio { num: 4, den: 5 }), Health::Fair);
    assert_eq!(ci_health(&Ratio { num: 79, den: 100 }), Health::Poor);
    assert_eq!(ci_health(&Ratio { num: 0, den: 1 }), Health::Poor);
}

#[test]
fn conclusion_kinds() {
    assert_eq!(run_at(0, Some("success")).conclusion_kind(), ConclusionKind::Success);
    assert_eq!(run_at(0, Some("failure")).conclusion_kind(), ConclusionKind::Failure);
    assert_eq!(run_at(0, Some("timed_out")).conclusion_kind(), ConclusionKind::TimedOut);
    assert_eq!(run_at(0, Some("cancelled")).conclusion_kind(), ConclusionKind::Cancelled);
    assert_eq!(run_at(0, Some("skipped")).conclusion_kind(), ConclusionKind::Other);
    assert_eq!(run_at(0, None).conclusion_kind(), ConclusionKind::Running);
}

#[test]
fn runs_most_recent_first() {
    let runs = vec![run_at(10, None), run_at(30, None), run_at(20, None), run_at(30, None)];
    assert_eq!(recent_first(&runs), vec![1, 3, 2, 0]);
    assert!(recent_first(&vec![]).is_empty());
}

#[test]
fn duration_in_minutes_and_seconds() {
    assert_eq!(minutes_and_seconds(480), (8, 0));
    assert_eq!(minutes_and_seconds(125), (2, 5));
    assert_eq!(minutes_and_seconds(59), (0, 59));
    assert_eq!(minutes_and_seconds(-125), (-2, -5));
    assert_eq!(minutes_and_seconds(i64::MIN), (i64::MIN / 60, i64::MIN % 60));
}

#[test]
fn cadence_agrees_with_the_frequency_band() {
    let now = 1_700_000_000i64;
    let stamps: Vec<i64> = (0..30).map(|i| now - i * 86400).collect();
    for (n, window) in [(0usize, 30u32), (1, 30), (5, 30), (30, 30), (4, 28), (3, 28), (1, 31)] {
        let m = frequency(&stamps[..n].to_vec(), window, Instant::at(now));
        let expected = match m.level {
            DoraLevel::NoData => Cadence::NoData,
            DoraLevel::Elite => Cadence::PerDay,
            DoraLevel::High => Cadence::PerWeek,
            _ => Cadence::PerMonth,
        };
        assert_eq!(m.cadence(), expected, "{} events in {} days", n, window);
    }
}
