//! Findings, results, severity ordering, report formatting, and the
//! deterministic ordering of results.

use arch_lint::analysis::{apply_severity_override, finish_result, gate_rule_violations};
use arch_lint::config::{Config, RuleConfig};
use arch_lint::severity::{parse_severity, Severity};
use arch_lint::types::{LintResult, Location, Suggestion, Violation};

fn make_violation(severity: Severity) -> Violation {
    Violation::new(
        "AL001".to_string(),
        "no-unwrap-expect".to_string(),
        severity,
        Location::new("src/lib.rs".to_string(), 42, 10),
        ".unwrap() detected".to_string(),
    )
}

#[test]
fn violation_new_has_no_doc_ref() {
    let v = make_violation(Severity::Error);
    assert!(v.doc_ref.is_none());
}

#[test]
fn violation_with_doc_ref_sets_value() {
    let v = make_violation(Severity::Error).with_doc_ref("ARCHITECTURE.md L85".to_string());
    assert_eq!(v.doc_ref.as_deref(), Some("ARCHITECTURE.md L85"));
}

#[test]
fn violation_format_includes_doc_ref() {
    let v = make_violation(Severity::Error).with_doc_ref("ARCHITECTURE.md L85".to_string());
    let formatted = v.format();
    assert!(formatted.contains("= see: ARCHITECTURE.md L85"));
}

#[test]
fn violation_format_omits_doc_ref_when_none() {
    let v = make_violation(Severity::Error);
    let formatted = v.format();
    assert!(!formatted.contains("see:"));
}

#[test]
fn violation_format_exact_text() {
    let v = make_violation(Severity::Warning);
    assert_eq!(
        v.format(),
        "AL001 no-unwrap-expect at src/lib.rs:42:10\n  warning: .unwrap() detected\n"
    );
}

#[test]
fn has_violations_at_error_only() {
    let mut result = LintResult::new();
    result.violations.push(make_violation(Severity::Warning));
    assert!(!result.has_violations_at(Severity::Error));
    assert!(result.has_violations_at(Severity::Warning));
}

#[test]
fn format_test_report_filters_by_severity() {
    let mut result = LintResult::new();
    result.files_checked = 5;
    result.violations.push(make_violation(Severity::Warning));
    result.violations.push(make_violation(Severity::Error));

    let report = result.format_test_report(Severity::Error);
    assert!(report.contains("1 violation(s)"));
    assert!(report.contains("1 error(s)"));
    assert!(report.contains("1 warning(s)"));
}

#[test]
fn format_test_report_includes_doc_ref() {
    let mut result = LintResult::new();
    result.files_checked = 1;
    result
        .violations
        .push(make_violation(Severity::Error).with_doc_ref("ARCH.md L10".to_string()));

    let report = result.format_test_report(Severity::Error);
    assert!(report.contains("= see: ARCH.md L10"));
}

#[test]
fn format_test_report_includes_suggestion() {
    let mut result = LintResult::new();
    result.files_checked = 1;
    result.violations.push(
        make_violation(Severity::Error)
            .with_suggestion(Suggestion::new("Use ? operator".to_string())),
    );

    let report = result.format_test_report(Severity::Error);
    assert!(report.contains("= help: Use ? operator"));
}

#[test]
fn count_by_severity_counts_each() {
    let mut result = LintResult::new();
    result.violations.push(make_violation(Severity::Error));
    result.violations.push(make_violation(Severity::Warning));
    result.violations.push(make_violation(Severity::Warning));
    result.violations.push(make_violation(Severity::Info));
    assert_eq!(result.count_by_severity(), (1, 2, 1));
}

#[test]
fn severity_parse_round_trip() {
    assert_eq!(parse_severity("error"), Some(Severity::Error));
    assert_eq!(parse_severity("warning"), Some(Severity::Warning));
    assert_eq!(parse_severity("info"), Some(Severity::Info));
    assert_eq!(parse_severity("critical"), None);
    assert_eq!(parse_severity(Severity::Error.as_str()), Some(Severity::Error));
}

#[test]
fn severity_ordering_by_rank() {
    assert!(Severity::Error.at_least(Severity::Warning));
    assert!(Severity::Warning.at_least(Severity::Info));
    assert!(!Severity::Info.at_least(Severity::Warning));
}

fn at(file: &str, line: usize, column: usize) -> Violation {
    Violation::new(
        "AL001".to_string(),
        "no-unwrap-expect".to_string(),
        Severity::Error,
        Location::new(file.to_string(), line, column),
        "message".to_string(),
    )
}

#[test]
fn result_is_sorted_by_file_line_column() {
    let vs = vec![
        at("src/b.rs", 1, 1),
        at("src/a.rs", 9, 2),
        at("src/a.rs", 2, 7),
        at("src/a.rs", 2, 3),
    ];
    let result = finish_result(vs, 4);
    assert_eq!(result.files_checked, 4);
    let keys: Vec<(String, usize, usize)> = result
        .violations
        .iter()
        .map(|v| (v.location.file.clone(), v.location.line, v.location.column))
        .collect();
    assert_eq!(
        keys,
        vec![
            ("src/a.rs".to_string(), 2, 3),
            ("src/a.rs".to_string(), 2, 7),
            ("src/a.rs".to_string(), 9, 2),
            ("src/b.rs".to_string(), 1, 1),
        ]
    );
}

#[test]
fn analyzing_twice_yields_identical_results() {
    let build = || {
        finish_result(
            vec![at("src/b.rs", 1, 1), at("src/a.rs", 2, 3)],
            2,
        )
    };
    let first = build();
    let second = build();
    assert_eq!(first.format_test_report(Severity::Error), second.format_test_report(Severity::Error));
    assert_eq!(first.files_checked, second.files_checked);
}

fn config_with_rule(name: &str, enabled: Option<bool>, severity: Option<Severity>) -> Config {
    let mut config = Config::new();
    let mut rc = RuleConfig::new();
    rc.enabled = enabled;
    rc.severity = severity;
    config.rules.push((name.to_string(), rc));
    config
}

#[test]
fn disabled_rule_contributes_nothing() {
    let config = config_with_rule("no-unwrap-expect", Some(false), None);
    let out = gate_rule_violations(&config, "no-unwrap-expect", vec![at("src/a.rs", 1, 1)]);
    assert!(out.is_empty());
}

#[test]
fn enabled_rule_passes_findings_through() {
    let config = Config::new();
    let out = gate_rule_violations(&config, "no-unwrap-expect", vec![at("src/a.rs", 1, 1)]);
    assert_eq!(out.len(), 1);
    assert_eq!(out[0].severity, Severity::Error);
}

#[test]
fn severity_override_applies_to_every_finding() {
    let config = config_with_rule("no-unwrap-expect", None, Some(Severity::Info));
    let out = apply_severity_override(
        &config,
        "no-unwrap-expect",
        vec![at("src/a.rs", 1, 1), at("src/b.rs", 2, 2)],
    );
    assert_eq!(out.len(), 2);
    assert!(out.iter().all(|v| v.severity == Severity::Info));
}

#[test]
fn rule_enablement_defaults_to_true() {
    let config = Config::new();
    assert!(config.is_rule_enabled("anything"));
    let config2 = config_with_rule("x", None, None);
    assert!(config2.is_rule_enabled("x"));
    let config3 = config_with_rule("x", Some(false), None);
    assert!(!config3.is_rule_enabled("x"));
}
