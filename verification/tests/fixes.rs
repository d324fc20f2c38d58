use cargo_analyzer::fixes::examples::get_fix_example;
use cargo_analyzer::fixes::suggestions::generate_fix_suggestion;
use cargo_analyzer::fixes::templates::category_templates_text;
use cargo_analyzer::fixes::templates::fix_template_text;
use cargo_analyzer::types::categories::CategoryType;
use cargo_analyzer::types::categories::WarningCategory;
use cargo_analyzer::types::priorities::Priority;
use cargo_analyzer::types::warnings::Warning;

fn fix_target(message: &str, category: CategoryType) -> Warning {
    Warning {
        message: message.to_string(),
        category: WarningCategory {
            category_type: category,
            subcategory: "lint".to_string(),
        },
        priority: Priority::Medium,
        file: "a.rs".to_string(),
        line: 1,
        suggested_fix: None,
    }
}

#[test]
fn locking_example_is_found() {
    let w = fix_target("Locking held too long", CategoryType::Performance);
    let example = get_fix_example(&w).expect("expected the locking example");
    assert_eq!(example.description, "Efficient locking patterns");
    assert_eq!(example.additional_notes.len(), 3);
}

#[test]
fn missing_docs_example_is_found() {
    let w = fix_target("Missing docs on item", CategoryType::Documentation);
    let example = get_fix_example(&w).expect("expected the documentation example");
    assert_eq!(example.description, "Documentation examples");
}

#[test]
fn unmatched_warnings_have_no_example() {
    let w = fix_target("Locking held too long", CategoryType::Style);
    assert!(get_fix_example(&w).is_none());
    let w2 = fix_target("anything else", CategoryType::Performance);
    assert!(get_fix_example(&w2).is_none());
}

#[test]
fn specific_fix_wins_over_category() {
    let w = fix_target("use_self everywhere", CategoryType::Performance);
    let fix = generate_fix_suggestion(&w).expect("expected the use_self fix");
    assert_eq!(fix.code, "Replace type name with `Self`");
    assert_eq!(fix.confidence, 95);
}

#[test]
fn category_fallback_fixes() {
    let w = fix_target("UnsafeCode block", CategoryType::Safety);
    let fix = generate_fix_suggestion(&w).expect("expected the safety fix");
    assert!(fix.code.contains("safe alternatives"));
    assert_eq!(fix.confidence, 90);

    let w2 = fix_target("Allocation hot spot", CategoryType::Performance);
    let fix2 = generate_fix_suggestion(&w2).expect("expected the allocation fix");
    assert_eq!(fix2.confidence, 80);

    let w3 = fix_target("nothing known", CategoryType::Style);
    assert!(generate_fix_suggestion(&w3).is_none());
}

#[test]
fn fix_template_lists_notes() {
    let w = fix_target("Locking held too long", CategoryType::Performance);
    let example = get_fix_example(&w).unwrap();
    let text = fix_template_text(&example);
    assert!(text.starts_with("// Efficient locking patterns\n"));
    assert!(text.contains("// - Use RwLock for read-heavy workloads\n"));
    assert!(text.ends_with("// - Minimize critical section size\n"));
}

#[test]
fn category_templates_have_banners() {
    let text = category_templates_text(CategoryType::Safety);
    assert!(text.starts_with("\n=== Safety Fixes ===\n\n"));
    assert!(text.contains("// 2. Consider safe alternatives"));
    let perf = category_templates_text(CategoryType::Performance);
    assert!(perf.contains("Performance Improvements"));
}
