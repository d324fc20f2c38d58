use cargo_analyzer::types::categories::CategoryType;
use cargo_analyzer::types::categories::WarningCategory;
use cargo_analyzer::types::priorities::Priority;
use cargo_analyzer::types::subcategories::DocSubcategory;
use cargo_analyzer::types::subcategories::PerfSubcategory;
use cargo_analyzer::types::subcategories::SafetySubcategory;
use cargo_analyzer::types::subcategories::StyleSubcategory;
use cargo_analyzer::types::warnings::FileWarnings;
use cargo_analyzer::types::warnings::Warning;

fn warning_at(line: u32) -> Warning {
    Warning {
        message: "msg".to_string(),
        category: WarningCategory {
            category_type: CategoryType::Style,
            subcategory: "lint".to_string(),
        },
        priority: Priority::Low,
        file: "a.rs".to_string(),
        line,
        suggested_fix: None,
    }
}

#[test]
fn category_ranks_are_fixed() {
    assert_eq!(CategoryType::Safety.priority_level(), 4);
    assert_eq!(CategoryType::Performance.priority_level(), 3);
    assert_eq!(CategoryType::Style.priority_level(), 2);
    assert_eq!(CategoryType::Documentation.priority_level(), 1);
    assert_eq!(CategoryType::Safety.description(), "Safety and correctness issues");
    assert_eq!(CategoryType::Documentation.name(), "Documentation");
}

#[test]
fn priority_scores_are_fixed() {
    assert_eq!(Priority::Critical.severity_score(), 5);
    assert_eq!(Priority::High.severity_score(), 4);
    assert_eq!(Priority::Medium.severity_score(), 3);
    assert_eq!(Priority::Low.severity_score(), 2);
    assert_eq!(Priority::Trivial.severity_score(), 1);
    assert_eq!(Priority::Critical.description(), "Critical: Must be fixed immediately");
}

#[test]
fn subcategory_descriptions() {
    assert_eq!(SafetySubcategory::TypeCasting.description(), "Unsafe type casting operations");
    assert_eq!(PerfSubcategory::Locking.description(), "Lock contention issues");
    assert_eq!(StyleSubcategory::UnusedCode.description(), "Unused code elements");
    assert_eq!(DocSubcategory::MissingDocs.description(), "Missing documentation");
}

#[test]
fn full_description_joins_name_and_label() {
    let cat = WarningCategory::new(CategoryType::Safety, "unsafe_code".to_string());
    assert_eq!(cat.full_description(), "Safety: unsafe_code");
}

#[test]
fn analyze_names_file_and_line() {
    let mut w = warning_at(12);
    w.category.category_type = CategoryType::Performance;
    w.priority = Priority::High;
    let (score, impact) = w.analyze();
    assert_eq!(score, 4);
    assert_eq!(impact, "Performance bottleneck in a.rs (line 12)");
}

#[test]
fn sort_by_line_orders_warnings() {
    let mut fw = FileWarnings::new("a.rs".to_string());
    fw.add_warning(warning_at(30));
    fw.add_warning(warning_at(5));
    fw.add_warning(warning_at(12));
    fw.sort_by_line();
    let lines: Vec<u32> = fw.warnings.iter().map(|w| w.line).collect();
    assert_eq!(lines, vec![5, 12, 30]);
}

#[test]
fn sort_by_line_is_stable_on_equal_lines() {
    let mut fw = FileWarnings::new("a.rs".to_string());
    let mut first = warning_at(7);
    first.message = "first".to_string();
    let mut second = warning_at(7);
    second.message = "second".to_string();
    fw.add_warning(warning_at(9));
    fw.add_warning(first);
    fw.add_warning(second);
    fw.sort_by_line();
    assert_eq!(fw.warnings[0].message, "first");
    assert_eq!(fw.warnings[1].message, "second");
    assert_eq!(fw.warnings[2].line, 9);
}

#[test]
fn analyze_file_analyzes_each_warning() {
    let mut fw = FileWarnings::new("a.rs".to_string());
    fw.add_warning(warning_at(1));
    fw.add_warning(warning_at(2));
    let results = fw.analyze_file();
    assert_eq!(results.len(), 2);
    assert_eq!(results[0].0, 2);
    assert_eq!(results[0].1, "Style improvement needed in a.rs (line 1)");
}
