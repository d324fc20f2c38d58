use cargo_analyzer::analysis::statistics::warning::WarningStatistics;
use cargo_analyzer::types::categories::CategoryType;
use cargo_analyzer::types::categories::WarningCategory;
use cargo_analyzer::types::priorities::Priority;
use cargo_analyzer::types::warnings::Warning;

fn make_warning(message: &str, category: CategoryType, priority: Priority, file: &str) -> Warning {
    Warning {
        message: message.to_string(),
        category: WarningCategory {
            category_type: category,
            subcategory: "lint".to_string(),
        },
        priority,
        file: file.to_string(),
        line: 1,
        suggested_fix: None,
    }
}

#[test]
fn totals_and_dimension_sums_agree() {
    let warnings = vec![
        make_warning("Type cast issue", CategoryType::Safety, Priority::Critical, "a.rs"),
        make_warning("unnecessary allocation", CategoryType::Performance, Priority::High, "a.rs"),
        make_warning("bad naming", CategoryType::Style, Priority::Low, "b.rs"),
        make_warning("missing docs", CategoryType::Documentation, Priority::Medium, "c.rs"),
        make_warning("another Type cast", CategoryType::Safety, Priority::High, "c.rs"),
    ];
    let stats = WarningStatistics::from_warnings(&warnings, 3);
    assert_eq!(stats.total_warnings, 5);
    assert_eq!(stats.total_input_warnings, 5);
    assert_eq!(stats.files_affected, 3);
    let by_cat = stats.by_category.safety
        + stats.by_category.performance
        + stats.by_category.style
        + stats.by_category.documentation;
    let by_pri = stats.by_priority.critical
        + stats.by_priority.high
        + stats.by_priority.medium
        + stats.by_priority.low
        + stats.by_priority.trivial;
    assert_eq!(by_cat, stats.total_warnings);
    assert_eq!(by_pri, stats.total_warnings);
    assert_eq!(stats.by_category.safety, 2);
    assert_eq!(stats.by_priority.high, 2);
    assert_eq!(stats.by_subcategory.get("lint"), 5);
}

#[test]
fn safety_details_dispatch_on_first_token() {
    let warnings = vec![
        make_warning("Type cast to u8", CategoryType::Safety, Priority::High, "a.rs"),
        make_warning("Unsafe raw pointer use in FFI", CategoryType::Safety, Priority::High, "a.rs"),
        make_warning("Thread data race on lock", CategoryType::Style, Priority::Low, "a.rs"),
        make_warning("plain message", CategoryType::Style, Priority::Low, "a.rs"),
    ];
    let stats = WarningStatistics::from_warnings(&warnings, 1);
    let (safety, _perf, _style, _doc) = stats.get_detailed_stats();
    assert_eq!(safety.total_issues, 4);
    assert_eq!(safety.casting_details.total_casts, 1);
    assert_eq!(safety.casting_details.by_type.get("Type cast to u8"), 1);
    assert_eq!(safety.unsafe_details.total_unsafe, 1);
    assert_eq!(safety.unsafe_details.raw_pointers, 1);
    assert_eq!(safety.unsafe_details.ffi_calls, 1);
    assert_eq!(safety.unsafe_details.mutable_statics, 0);
    assert_eq!(safety.thread_safety_details.total_issues, 1);
    assert_eq!(safety.thread_safety_details.data_races, 1);
    assert_eq!(safety.thread_safety_details.lock_issues, 1);
    assert_eq!(safety.thread_safety_details.send_sync_violations, 0);
}

#[test]
fn pattern_maps_count_per_message() {
    let warnings = vec![
        make_warning("allocation in clone-heavy lock path", CategoryType::Performance, Priority::High, "a.rs"),
        make_warning("allocation in clone-heavy lock path", CategoryType::Performance, Priority::High, "a.rs"),
        make_warning("unused and complex naming", CategoryType::Style, Priority::Low, "a.rs"),
        make_warning("missing docs with bad link quality", CategoryType::Documentation, Priority::Low, "a.rs"),
    ];
    let stats = WarningStatistics::from_warnings(&warnings, 1);
    let (_safety, perf, style, doc) = stats.get_detailed_stats();
    assert_eq!(perf.allocation_patterns.get("allocation in clone-heavy lock path"), 2);
    assert_eq!(perf.clone_patterns.get("allocation in clone-heavy lock path"), 2);
    assert_eq!(perf.lock_patterns.get("allocation in clone-heavy lock path"), 2);
    assert_eq!(style.naming_issues.get("unused and complex naming"), 1);
    assert_eq!(style.unused_patterns.get("unused and complex naming"), 1);
    assert_eq!(style.complexity_issues.get("unused and complex naming"), 1);
    assert_eq!(doc.missing_docs.get("missing docs with bad link quality"), 1);
    assert_eq!(doc.quality_issues.get("missing docs with bad link quality"), 1);
    assert_eq!(doc.link_issues, 1);
}

#[test]
fn empty_collection_gives_zero_aggregate() {
    let stats = WarningStatistics::from_warnings(&[], 0);
    assert_eq!(stats.total_warnings, 0);
    assert_eq!(stats.by_category.safety, 0);
    assert_eq!(stats.by_priority.critical, 0);
    assert_eq!(stats.by_subcategory.len(), 0);
}
