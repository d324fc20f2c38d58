use cargo_analyzer::analysis::charts::create_enhanced_chart;
use cargo_analyzer::analysis::charts::ChartConfig;
use cargo_analyzer::analysis::charts::ChartStyle;

fn dataset(pairs: &[(&str, usize)]) -> Vec<(String, usize)> {
    pairs.iter().map(|(l, v)| (l.to_string(), *v)).collect()
}

#[test]
fn basic_chart_quarter_and_three_quarters() {
    let data = dataset(&[("A", 1), ("B", 3)]);
    let config = ChartConfig {
        style: ChartStyle::Basic,
        color: None,
        width: 40,
        show_percentage: true,
    };
    let chart = create_enhanced_chart(&data, config);
    let expected = format!(
        "{:<20} [ 25%] {}\n{:<20} [ 75%] {}\n",
        "A",
        "█".repeat(10),
        "B",
        "█".repeat(30)
    );
    assert_eq!(chart, expected);
}

#[test]
fn blocks_partial_glyph_selection() {
    let data = dataset(&[("x", 1)]);
    let config = ChartConfig {
        style: ChartStyle::Blocks,
        color: None,
        width: 11,
        show_percentage: false,
    };
    let chart = create_enhanced_chart(&data, config);
    // bar width 11: one full glyph plus the partial glyph at index 11 % 8 - 1 = 2
    let expected = format!("{:<20} █▍\n", "x");
    assert_eq!(chart, expected);
}

#[test]
fn blocks_exact_eighths_have_no_partial() {
    let data = dataset(&[("x", 1)]);
    let config = ChartConfig {
        style: ChartStyle::Blocks,
        color: None,
        width: 8,
        show_percentage: false,
    };
    let chart = create_enhanced_chart(&data, config);
    let expected = format!("{:<20} █\n", "x");
    assert_eq!(chart, expected);
}

#[test]
fn dots_partial_glyph_selection() {
    let data = dataset(&[("x", 1)]);
    let config = ChartConfig {
        style: ChartStyle::Dots,
        color: None,
        width: 9,
        show_percentage: false,
    };
    let chart = create_enhanced_chart(&data, config);
    // bar width 9: one full glyph plus the partial glyph at index 0
    let expected = format!("{:<20} ⣿⠄\n", "x");
    assert_eq!(chart, expected);
}

#[test]
fn lines_style_appends_light_line_below_full_share() {
    let data = dataset(&[("a", 1), ("b", 1)]);
    let config = ChartConfig {
        style: ChartStyle::Lines,
        color: None,
        width: 4,
        show_percentage: false,
    };
    let chart = create_enhanced_chart(&data, config);
    let expected = format!("{:<20} ━━─\n{:<20} ━━─\n", "a", "b");
    assert_eq!(chart, expected);
}

#[test]
fn lines_style_full_share_has_no_light_line() {
    let data = dataset(&[("a", 2)]);
    let config = ChartConfig {
        style: ChartStyle::Lines,
        color: None,
        width: 4,
        show_percentage: false,
    };
    let chart = create_enhanced_chart(&data, config);
    let expected = format!("{:<20} ━━━━\n", "a");
    assert_eq!(chart, expected);
}

#[test]
fn long_labels_are_kept_whole() {
    let data = dataset(&[("a-label-longer-than-twenty-chars", 1)]);
    let config = ChartConfig {
        style: ChartStyle::Basic,
        color: None,
        width: 2,
        show_percentage: true,
    };
    let chart = create_enhanced_chart(&data, config);
    assert_eq!(chart, "a-label-longer-than-twenty-chars [100%] ██\n");
}
