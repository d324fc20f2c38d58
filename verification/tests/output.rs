use cargo_analyzer::analysis::trends::Ratio;
use cargo_analyzer::analysis::trends::TrendAnalysis;
use cargo_analyzer::analysis::statistics::warning::WarningStatistics;
use cargo_analyzer::counts::CategoryCounts;
use cargo_analyzer::counts::LabelCounts;
use cargo_analyzer::counts::PriorityCounts;
use cargo_analyzer::output::fix_plan::FixPlanGenerator;
use cargo_analyzer::output::formatter::format_code_snippet;
use cargo_analyzer::output::formatter::format_file_path;
use cargo_analyzer::output::formatter::format_summary;
use cargo_analyzer::output::formatter::format_warning;
use cargo_analyzer::output::markdown::generate_markdown_report;
use cargo_analyzer::output::markdown::MarkdownWriter;
use cargo_analyzer::output::report::write_colored_section;
use cargo_analyzer::output::report::write_trend_analysis;
use cargo_analyzer::output::report::write_warning_report;
use cargo_analyzer::types::categories::CategoryType;
use cargo_analyzer::types::categories::WarningCategory;
use cargo_analyzer::types::priorities::Priority;
use cargo_analyzer::types::warnings::Warning;

fn sample_warning(message: &str, category: CategoryType, priority: Priority, file: &str) -> Warning {
    Warning {
        message: message.to_string(),
        category: WarningCategory {
            category_type: category,
            subcategory: "lint".to_string(),
        },
        priority,
        file: file.to_string(),
        line: 3,
        suggested_fix: None,
    }
}

fn sample_trend() -> TrendAnalysis {
    TrendAnalysis {
        dates: vec![],
        total_warnings: 4,
        by_category: CategoryCounts { safety: 2, performance: 1, style: 1, documentation: 0 },
        by_priority: PriorityCounts { critical: 1, high: 1, medium: 2, low: 0, trivial: 0 },
        improvement_rate: Ratio { num: 10, den: 30 },
        recurring_issues: LabelCounts::new(),
    }
}

#[test]
fn formatted_warning_names_category_and_location() {
    let w = sample_warning("bad thing", CategoryType::Safety, Priority::High, "src/x.rs");
    let (text, _color) = format_warning(&w);
    assert_eq!(text, "🔴 Safety in src/x.rs (line 3)\n    bad thing\n");
}

#[test]
fn summary_lists_categories() {
    let data = vec![(CategoryType::Safety, 2usize), (CategoryType::Style, 1usize)];
    let text = format_summary(3, &data, 5);
    assert_eq!(
        text,
        "\nTotal Warnings: 3 (from 5 input warnings)\n\nBy Category:\n  Safety: 2\n  Style: 1\n"
    );
}

#[test]
fn file_path_line_counts_warnings() {
    assert_eq!(format_file_path("src/a.rs", 7), "\n📁 src/a.rs (7 warnings)\n");
}

#[test]
fn code_snippet_numbers_lines() {
    let text = format_code_snippet("let a = 1;\nlet b = 2;", 10);
    assert_eq!(text, "  10 | let a = 1;\n  11 | let b = 2;\n");
}

#[test]
fn colored_section_frames_content() {
    let text = write_colored_section("Title", "body", termcolor::Color::Red);
    assert_eq!(text, "=== Title ===\n\nbody\n");
}

#[test]
fn trend_text_reports_rate_with_one_decimal() {
    let trend = sample_trend();
    let text = write_trend_analysis(&trend);
    assert!(text.starts_with("\n=== Trend Analysis ===\n\nTotal Warnings: 4\n"));
    assert!(text.contains("  Safety - 2 issues\n"));
    assert!(text.contains("  Critical - 1 warnings\n"));
    assert!(text.ends_with("\nImprovement Rate: 33.3%\n"));
}

#[test]
fn negative_rate_is_signed() {
    let mut trend = sample_trend();
    trend.improvement_rate = Ratio { num: -10, den: 10 };
    let text = write_trend_analysis(&trend);
    assert!(text.ends_with("\nImprovement Rate: -100.0%\n"));
}

#[test]
fn warning_report_groups_by_file() {
    let mut w1 = sample_warning("first", CategoryType::Style, Priority::Low, "a.rs");
    w1.suggested_fix = Some("fix it".to_string());
    let w2 = sample_warning("second", CategoryType::Style, Priority::Low, "a.rs");
    let w3 = sample_warning("third", CategoryType::Style, Priority::Low, "b.rs");
    let text = write_warning_report(&[w1, w2, w3], true);
    assert!(text.starts_with("Warning Report\n\n\nFile: a.rs\n"));
    assert_eq!(text.matches("\nFile: ").count(), 2);
    assert!(text.contains("Suggested fix:\nfix it\n\n"));
}

#[test]
fn fix_plan_covers_all_sections() {
    let warnings = vec![
        sample_warning("Unsafe raw pointer", CategoryType::Safety, Priority::Critical, "a.rs"),
        sample_warning("Locking held too long", CategoryType::Performance, Priority::High, "b.rs"),
    ];
    let mut generator = FixPlanGenerator::new();
    generator.generate_plan(&warnings);
    let plan = generator.into_output();
    assert!(plan.starts_with("# Comprehensive Fix Priority Plan\n\n"));
    assert!(plan.contains("## Risk Level Definitions"));
    assert!(plan.contains("Total warnings: 2"));
    assert!(plan.contains("\n# Critical Priority Warnings (Risk Level: 5)\n"));
    assert!(plan.contains("## Safety Issues"));
    assert!(plan.contains("\n# High Priority Warnings (Risk Level: 4)\n"));
    assert!(plan.contains("#### Fix Template"));
    assert!(plan.contains("**a.rs:3**"));
}

#[test]
fn fix_plan_unpacks_child_messages() {
    let w = sample_warning(
        "something\nChild messages: [\"one\", \"two\"]",
        CategoryType::Style,
        Priority::Low,
        "a.rs",
    );
    let mut generator = FixPlanGenerator::new();
    generator.generate_plan(&[w]);
    let plan = generator.into_output();
    assert!(plan.contains("\nChild Messages:\n- one\n- two\n"));
}

#[test]
fn markdown_summary_has_charts_and_top_subcategories() {
    let warnings = vec![
        sample_warning("a", CategoryType::Safety, Priority::Critical, "a.rs"),
        sample_warning("b", CategoryType::Style, Priority::Low, "a.rs"),
        sample_warning("c", CategoryType::Style, Priority::Low, "b.rs"),
    ];
    let stats = WarningStatistics::from_warnings(&warnings, 2);
    let mut writer = MarkdownWriter::new();
    writer.write_summary(&stats, "20240101_000000");
    let text = writer.out;
    assert!(text.starts_with("## Analysis Summary\n\nTotal warnings: 3\nFiles affected: 2\n"));
    assert!(text.contains("#### Severity Distribution"));
    assert!(text.contains("#### Category Distribution"));
    assert!(text.contains("- lint: 3 warnings\n"));
    assert!(text.contains("clippy_fix_plan_20240101_000000.md"));
    // the category chart is sorted by count, so Style comes before Safety
    let style_pos = text.find("- Style: 2 (66.7%)").expect("style line");
    let safety_pos = text.find("- Safety: 1 (33.3%)").expect("safety line");
    assert!(style_pos < safety_pos);
}

#[test]
fn markdown_trend_without_history_summarizes_current() {
    let trend = sample_trend();
    let mut writer = MarkdownWriter::new();
    writer.write_trend_analysis(&trend, &[]);
    let text = writer.out;
    assert!(text.contains("No historical data available for trend analysis."));
    assert!(text.contains("- Safety (CRITICAL Risk): 2 warnings\n"));
}

#[test]
fn markdown_trend_with_history_shows_changes() {
    let mut previous = sample_trend();
    previous.total_warnings = 2;
    previous.by_category = CategoryCounts { safety: 1, performance: 0, style: 1, documentation: 0 };
    let current = sample_trend();
    let mut writer = MarkdownWriter::new();
    writer.write_trend_analysis(&current, &[previous]);
    let text = writer.out;
    assert!(text.contains("#### Historical Trends"));
    assert!(text.contains("- Safety issues have increased (+1)\n"));
    assert!(text.contains("- Style issues have unchanged (+0)\n"));
    assert!(text.contains("Warning count increased by 100.0% compared to historical average"));
}

#[test]
fn markdown_report_assembles_all_sections() {
    let warnings = vec![sample_warning("a", CategoryType::Safety, Priority::Critical, "a.rs")];
    let stats = WarningStatistics::from_warnings(&warnings, 1);
    let trend = sample_trend();
    let report = generate_markdown_report(&stats, &trend, &[], &[]);
    assert!(report.starts_with("# Clippy Analysis Report\n\n## Analysis Summary\n"));
    assert!(report.contains("## Build Configuration Analysis"));
    assert!(report.contains("## Trend Analysis"));
}

#[test]
fn debug_list_escapes_control_characters() {
    let parts = vec!["a\"b\\c".to_string(), "tab\there".to_string(), "bell\u{7}end\u{7f}".to_string()];
    let text = cargo_analyzer::text::debug_list(&parts);
    assert_eq!(text, "[\"a\\\"b\\\\c\", \"tab\\there\", \"bell\\u{7}end\\u{7f}\"]");
    assert_eq!(text, format!("{:?}", parts));
}

#[test]
fn reports_list_names_the_artifacts() {
    let mut writer = MarkdownWriter::new();
    writer.write_reports_list("20240101_000000");
    assert!(writer.out.contains("clippy_analysis_20240101_000000.md"));
    assert!(writer.out.contains("Raw Clippy warnings"));
}
