use cargo_analyzer::analysis::trends::analyze_trends;
use cargo_analyzer::analysis::trends::Ratio;
use cargo_analyzer::analysis::trends::TrendAnalysis;
use cargo_analyzer::counts::CategoryCounts;
use cargo_analyzer::counts::LabelCounts;
use cargo_analyzer::counts::PriorityCounts;

fn empty_trend(total: usize) -> TrendAnalysis {
    TrendAnalysis {
        dates: vec![],
        total_warnings: total,
        by_category: CategoryCounts::new(),
        by_priority: PriorityCounts::new(),
        improvement_rate: Ratio { num: 0, den: 1 },
        recurring_issues: LabelCounts::new(),
    }
}

#[test]
fn improvement_rate_against_history() {
    let mut t = empty_trend(10);
    let r = t.calculate_improvement_rate(&[10, 20]);
    // average 15, current 10: rate (15 - 10) / 15 = 1/3
    assert_eq!(r.num, 10);
    assert_eq!(r.den, 30);
    let as_float = r.num as f64 / r.den as f64;
    assert!((as_float - 1.0 / 3.0).abs() < 1e-12);
    assert_eq!(t.improvement_rate, r);
}

#[test]
fn improvement_rate_of_empty_history_is_zero() {
    let mut t = empty_trend(10);
    t.improvement_rate = Ratio { num: 7, den: 9 };
    let r = t.calculate_improvement_rate(&[]);
    assert_eq!(r.num, 0);
    assert_eq!(r.den, 1);
    // a previously stored rate survives the degenerate case
    assert_eq!(t.improvement_rate, Ratio { num: 7, den: 9 });
}

#[test]
fn improvement_rate_of_zero_average_is_zero() {
    let mut t = empty_trend(10);
    t.improvement_rate = Ratio { num: 7, den: 9 };
    let r = t.calculate_improvement_rate(&[0, 0]);
    assert_eq!(r.num, 0);
    assert_eq!(r.den, 1);
    assert_eq!(t.improvement_rate, Ratio { num: 7, den: 9 });
}

#[test]
fn regression_gives_negative_rate() {
    let mut t = empty_trend(20);
    let r = t.calculate_improvement_rate(&[10]);
    assert_eq!(r.num, -10);
    assert_eq!(r.den, 10);
}

#[test]
fn increase_insight_fires_above_twenty_percent() {
    let current = empty_trend(130);
    let historical = vec![empty_trend(100)];
    let insights = analyze_trends(&current, &historical);
    assert_eq!(
        insights[0],
        "Warning count increased by 30.0% compared to historical average"
    );
}

#[test]
fn no_increase_insight_at_twenty_percent() {
    let current = empty_trend(120);
    let historical = vec![empty_trend(100)];
    let insights = analyze_trends(&current, &historical);
    assert!(insights.is_empty());
}

#[test]
fn category_share_insight_above_thirty_percent() {
    let mut current = empty_trend(100);
    current.by_category = CategoryCounts {
        safety: 35,
        performance: 25,
        style: 25,
        documentation: 15,
    };
    let insights = analyze_trends(&current, &[]);
    assert_eq!(insights, vec!["High concentration of Safety issues (35.0%)".to_string()]);
}

#[test]
fn priority_share_insight_above_twenty_percent() {
    let mut current = empty_trend(100);
    current.by_priority = PriorityCounts {
        critical: 25,
        high: 10,
        medium: 30,
        low: 20,
        trivial: 15,
    };
    let insights = analyze_trends(&current, &[]);
    assert_eq!(
        insights,
        vec!["Significant number of Critical priority issues (25.0%)".to_string()]
    );
}

#[test]
fn top_issues_are_ranked_by_count() {
    let mut t = empty_trend(0);
    t.recurring_issues.insert("alpha", 5);
    t.recurring_issues.insert("beta", 3);
    t.recurring_issues.insert("gamma", 3);
    t.recurring_issues.insert("delta", 1);
    let top = t.get_top_issues(3);
    assert_eq!(top.len(), 3);
    assert_eq!(top[0], ("alpha".to_string(), 5));
    assert_eq!(top[1].1, 3);
    assert_eq!(top[2].1, 3);
    let insights = analyze_trends(&t, &[]);
    assert_eq!(insights.len(), 3);
    assert_eq!(insights[0], "Frequently occurring issue: alpha (5 occurrences)");
}

#[test]
fn category_distribution_is_exact() {
    let mut t = empty_trend(0);
    t.by_category = CategoryCounts { safety: 1, performance: 3, style: 0, documentation: 0 };
    let dist = t.get_category_distribution();
    assert_eq!(dist.len(), 4);
    assert_eq!(dist[0].1, Ratio { num: 100, den: 4 });
    assert_eq!(dist[1].1, Ratio { num: 300, den: 4 });
}
