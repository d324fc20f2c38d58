use cargo_analyzer::parser::warning_parser::AnalysisContext;
use cargo_analyzer::parser::warning_parser::BuildProfile;
use cargo_analyzer::parser::warning_parser::CompilerMessage;
use cargo_analyzer::parser::warning_parser::CompilerTarget;
use cargo_analyzer::parser::warning_parser::DiagnosticMessage;
use cargo_analyzer::parser::warning_parser::DiagnosticSpan;
use cargo_analyzer::parser::warning_parser::WarningParser;
use cargo_analyzer::types::categories::CategoryType;
use cargo_analyzer::types::priorities::Priority;
use cargo_analyzer::analysis::statistics::warning::WarningStatistics;

fn empty_message(reason: &str) -> CompilerMessage {
    CompilerMessage {
        reason: reason.to_string(),
        package_id: None,
        manifest_path: None,
        target: None,
        message: None,
        features: None,
        filenames: None,
        executable: None,
        fresh: None,
        profile: None,
    }
}

fn sample_target() -> CompilerTarget {
    CompilerTarget {
        kind: vec!["lib".to_string()],
        crate_types: vec![],
        name: "my_lib".to_string(),
        src_path: "/path/to/src/lib.rs".to_string(),
        edition: "2021".to_string(),
        doc: None,
        doctest: None,
        test: None,
    }
}

fn sample_profile() -> BuildProfile {
    BuildProfile {
        opt_level: "0".to_string(),
        debuginfo: 2,
        debug_assertions: true,
        overflow_checks: true,
        test: false,
    }
}

#[test]
fn test_parse_artifact_message() {
    let mut msg = empty_message("compiler-artifact");
    msg.package_id = Some("my-package".to_string());
    msg.manifest_path = Some("/path/to/Cargo.toml".to_string());
    msg.target = Some(sample_target());
    msg.profile = Some(sample_profile());

    let parser = WarningParser::new();
    if let Some(AnalysisContext::BuildInfo { crate_name, .. }) = parser.parse_compiler_message(msg)
    {
        assert_eq!(crate_name, "my-package");
    } else {
        panic!("Expected BuildInfo variant");
    }
}

#[test]
fn test_parse_diagnostic_message() {
    let mut msg = empty_message("compiler-message");
    msg.message = Some(DiagnosticMessage {
        code: Some("dead_code".to_string()),
        level: "warning".to_string(),
        message: "unused variable `x`".to_string(),
        spans: vec![DiagnosticSpan {
            file_name: "src/main.rs".to_string(),
            line_start: 10,
            line_end: 10,
            column_start: 1,
            column_end: 10,
        }],
        children: vec![],
        rendered: Some("help: remove this variable".to_string()),
    });

    let parser = WarningParser::new();
    if let Some(AnalysisContext::Warning(warning)) = parser.parse_compiler_message(msg) {
        assert_eq!(warning.file, "src/main.rs");
        assert_eq!(warning.line, 10);
        assert_eq!(warning.category.category_type, CategoryType::Style);
    } else {
        panic!("Expected Warning variant");
    }
}

#[test]
fn artifact_without_profile_is_dropped() {
    let mut msg = empty_message("compiler-artifact");
    msg.package_id = Some("my-package".to_string());
    msg.manifest_path = Some("/path/to/Cargo.toml".to_string());
    msg.target = Some(sample_target());
    let parser = WarningParser::new();
    assert!(parser.parse_compiler_message(msg).is_none());
}

#[test]
fn diagnostic_without_spans_is_dropped() {
    let mut msg = empty_message("compiler-message");
    msg.message = Some(DiagnosticMessage {
        code: None,
        level: "warning".to_string(),
        message: "anything".to_string(),
        spans: vec![],
        children: vec![],
        rendered: None,
    });
    let parser = WarningParser::new();
    assert!(parser.parse_compiler_message(msg).is_none());
}

#[test]
fn unknown_reason_is_dropped() {
    let parser = WarningParser::new();
    assert!(parser.parse_compiler_message(empty_message("something-else")).is_none());
}

#[test]
fn build_script_record_decodes() {
    let mut msg = empty_message("build-script-executed");
    msg.package_id = Some("pkg 1.0".to_string());
    msg.fresh = Some(true);
    msg.executable = Some("out".to_string());
    let parser = WarningParser::new();
    match parser.parse_compiler_message(msg) {
        Some(AnalysisContext::BuildScript { package, success, output, .. }) => {
            assert_eq!(package, "pkg 1.0");
            assert!(success);
            assert_eq!(output.as_deref(), Some("out"));
        }
        _ => panic!("expected a build-script event"),
    }
}

#[test]
fn crate_name_strips_hash_and_path() {
    let mut msg = empty_message("compiler-artifact");
    msg.package_id = Some("registry/src/foo#0.1.0".to_string());
    msg.manifest_path = Some("m".to_string());
    msg.target = Some(sample_target());
    msg.profile = Some(sample_profile());
    let parser = WarningParser::new();
    match parser.parse_compiler_message(msg) {
        Some(AnalysisContext::BuildInfo { crate_name, .. }) => {
            assert_eq!(crate_name, "foo");
        }
        _ => panic!("expected build info"),
    }
}

#[test]
fn classifier_is_order_sensitive() {
    let parser = WarningParser::new();
    assert_eq!(
        parser.categorize_clippy_warning("clippy::unsafe_removed_from_name"),
        CategoryType::Safety
    );
    assert_eq!(parser.categorize_clippy_warning("redundant_clone"), CategoryType::Style);
    assert_eq!(parser.categorize_clippy_warning("box_collection"), CategoryType::Performance);
    assert_eq!(parser.categorize_clippy_warning("missing_docs"), CategoryType::Documentation);
    assert_eq!(parser.categorize_clippy_warning("totally_unknown"), CategoryType::Style);
}

#[test]
fn error_level_beats_unsafe_keyword() {
    let parser = WarningParser::new();
    let diagnostic = DiagnosticMessage {
        code: None,
        level: "error".to_string(),
        message: "unsafe block detected".to_string(),
        spans: vec![],
        children: vec![],
        rendered: None,
    };
    assert_eq!(parser.determine_message_priority(&diagnostic), Priority::Critical);
    let warning_level = DiagnosticMessage { level: "warning".to_string(), ..diagnostic };
    assert_eq!(parser.determine_message_priority(&warning_level), Priority::High);
}

#[test]
fn note_level_is_low_priority() {
    let parser = WarningParser::new();
    let diagnostic = DiagnosticMessage {
        code: None,
        level: "note".to_string(),
        message: "unsafe mention".to_string(),
        spans: vec![],
        children: vec![],
        rendered: None,
    };
    assert_eq!(parser.determine_message_priority(&diagnostic), Priority::Low);
}

#[test]
fn suggestion_and_explanations_are_extracted() {
    let parser = WarningParser::new();
    let rendered = "warning: thing\nhelp: use the other form\n= help: see the guide\n";
    let (suggestion, explanations) = parser.parse_clippy_suggestion(rendered);
    assert_eq!(suggestion.as_deref(), Some("use the other form"));
    assert_eq!(explanations, vec!["see the guide".to_string()]);
}

#[test]
fn first_suggestion_wins() {
    let parser = WarningParser::new();
    let rendered = "help: first\nhelp: second";
    let (suggestion, _) = parser.parse_clippy_suggestion(rendered);
    assert_eq!(suggestion.as_deref(), Some("first"));
}

#[test]
fn end_to_end_two_records() {
    let mut artifact = empty_message("compiler-artifact");
    artifact.package_id = Some("my-package".to_string());
    artifact.manifest_path = Some("/path/to/Cargo.toml".to_string());
    artifact.target = Some(sample_target());
    artifact.profile = Some(sample_profile());

    let mut diag = empty_message("compiler-message");
    diag.message = Some(DiagnosticMessage {
        code: Some("unsafe_code".to_string()),
        level: "warning".to_string(),
        message: "unsafe block detected".to_string(),
        spans: vec![DiagnosticSpan {
            file_name: "src/a.rs".to_string(),
            line_start: 5,
            line_end: 5,
            column_start: 1,
            column_end: 4,
        }],
        children: vec![],
        rendered: None,
    });

    let (warnings, files, context) = WarningParser::parse_records(vec![artifact, diag]);
    assert_eq!(warnings.len(), 1);
    assert_eq!(context.len(), 2);
    assert_eq!(files.len(), 1);
    assert_eq!(files[0].file_path, "src/a.rs");
    let w = &warnings[0];
    assert_eq!(w.category.category_type, CategoryType::Safety);
    assert_eq!(w.priority, Priority::High);
    assert_eq!(w.file, "src/a.rs");
    assert_eq!(w.line, 5);
    let stats = WarningStatistics::from_warnings(&warnings, files.len());
    assert_eq!(stats.total_warnings, 1);
}
