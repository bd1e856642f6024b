use nirapod_audit_core::audit::{
    apply_overrides,
    applies_to, audit_file, audit_passed, record_outcome, run_passes, sort_findings, update_summary,
    FileOutcome,
};
use nirapod_audit_core::context::{build_file_context, build_project_context, ContextBuildError};
use nirapod_audit_core::summary::AuditSummaryView;
use nirapod_audit_core::{
    AuditConfig, Diagnostic, Rule, RuleCategory, RuleOverride, RuleOverrideSeverity, Severity, SourceLanguage,
    Span,
};

fn zero() -> AuditSummaryView {
    AuditSummaryView { scanned_files: 0, skipped_files: 0, errors: 0, warnings: 0, infos: 0 }
}

fn finding(id: &str, severity: Severity, file: &str, line: usize, col: usize, message: &str) -> Diagnostic {
    Diagnostic {
        rule: Rule {
            id: id.to_owned(),
            category: RuleCategory::Style,
            severity,
            title: String::new(),
            description: String::new(),
            rationale: String::new(),
            references: Vec::new(),
            languages: None,
        },
        span: Span::new(file, line, col, line, col + 1, ""),
        message: message.to_owned(),
        notes: Vec::new(),
        help: None,
        related_spans: Vec::new(),
    }
}

const BARE_SOURCE: &str = "int add(int a, int b) {\n    return a + b;\n}\n";

#[test]
fn findings_are_sorted_by_file_line_column_and_rule() {
    let sorted = sort_findings(vec![
        finding("NRP-B", Severity::Error, "b.c", 1, 1, "1"),
        finding("NRP-B", Severity::Error, "a.c", 3, 1, "2"),
        finding("NRP-A", Severity::Error, "a.c", 3, 1, "3"),
        finding("NRP-A", Severity::Error, "a.c", 2, 9, "4"),
        finding("NRP-A", Severity::Error, "a.c", 2, 4, "5"),
    ]);
    let order: Vec<&str> = sorted.iter().map(|d| d.message.as_str()).collect();
    assert_eq!(order, vec!["5", "4", "3", "2", "1"]);
}

#[test]
fn equal_keys_keep_pass_order() {
    let sorted = sort_findings(vec![
        finding("NRP-A", Severity::Info, "a.c", 1, 1, "first"),
        finding("NRP-A", Severity::Info, "a.c", 1, 1, "second"),
        finding("NRP-A", Severity::Info, "a.c", 0, 1, "zeroth"),
    ]);
    let order: Vec<&str> = sorted.iter().map(|d| d.message.as_str()).collect();
    assert_eq!(order, vec!["zeroth", "first", "second"]);
}

#[test]
fn run_passes_reports_in_order() {
    let project = build_project_context("/tmp/audit", vec!["/tmp/audit/add.c".to_owned()], AuditConfig::default());
    let ctx = build_file_context("/tmp/audit/add.c", BARE_SOURCE, &project).unwrap_or_else(|_| panic!("context"));
    let found = run_passes(&ctx);
    assert!(!found.is_empty());
    assert!(found.iter().any(|d| d.rule.id == "NRP-LIC-001"));
    for pair in found.windows(2) {
        let a = (&pair[0].span.file, pair[0].span.start_line, pair[0].span.start_col, &pair[0].rule.id);
        let b = (&pair[1].span.file, pair[1].span.start_line, pair[1].span.start_col, &pair[1].rule.id);
        assert!(a <= b);
    }
}

#[test]
fn third_party_files_have_no_findings() {
    let project = build_project_context("/tmp/audit", Vec::new(), AuditConfig::default());
    let ctx = build_file_context("/tmp/audit/vendor/lib.c", BARE_SOURCE, &project)
        .unwrap_or_else(|_| panic!("context"));
    assert!(run_passes(&ctx).is_empty());
}

#[test]
fn language_filter_applies() {
    assert!(applies_to(None, SourceLanguage::Rust));
    assert!(applies_to(Some(vec![SourceLanguage::C, SourceLanguage::Cpp]), SourceLanguage::Cpp));
    assert!(!applies_to(Some(vec![SourceLanguage::C, SourceLanguage::Cpp]), SourceLanguage::TypeScript));
}

#[test]
fn files_without_a_parser_are_skipped() {
    let project = build_project_context("/tmp/audit", Vec::new(), AuditConfig::default());
    assert!(matches!(audit_file("/tmp/audit/lib.rs", "fn main() {}", &project), Ok(FileOutcome::Skipped)));
    assert!(matches!(
        audit_file("/tmp/audit/notes.md", "text", &project),
        Err(ContextBuildError::UnsupportedPath(p)) if p == "/tmp/audit/notes.md"
    ));
    match audit_file("/tmp/audit/add.c", BARE_SOURCE, &project) {
        Ok(FileOutcome::Scanned(found)) => assert!(!found.is_empty()),
        _ => panic!("expected a scanned file"),
    }
}

#[test]
fn summary_counts_each_severity() {
    let mut summary = zero();
    let found = vec![
        finding("A", Severity::Error, "a.c", 1, 1, ""),
        finding("B", Severity::Warning, "a.c", 1, 1, ""),
        finding("C", Severity::Warning, "a.c", 1, 1, ""),
        finding("D", Severity::Info, "a.c", 1, 1, ""),
    ];
    update_summary(&mut summary, &found);
    assert_eq!((summary.errors, summary.warnings, summary.infos), (1, 2, 1));
    assert!(!audit_passed(&summary));

    let mut counted = zero();
    record_outcome(&mut counted, &FileOutcome::Skipped);
    record_outcome(&mut counted, &FileOutcome::Scanned(vec![finding("W", Severity::Warning, "a.c", 1, 1, "")]));
    assert_eq!(counted.skipped_files, 1);
    assert_eq!(counted.scanned_files, 1);
    assert_eq!(counted.warnings, 1);
    assert!(audit_passed(&counted));
}

#[test]
fn overrides_drop_and_regrade_findings() {
    let overrides = vec![
        RuleOverride { rule_id: "NRP-DOX-018".to_owned(), severity: RuleOverrideSeverity::Ignore },
        RuleOverride { rule_id: "NRP-STYLE-001".to_owned(), severity: RuleOverrideSeverity::Info },
    ];
    let found = apply_overrides(
        vec![
            finding("NRP-DOX-018", Severity::Warning, "a.c", 1, 1, "dropped"),
            finding("NRP-STYLE-001", Severity::Warning, "a.c", 2, 1, "regraded"),
            finding("NRP-LIC-001", Severity::Error, "a.c", 3, 1, "kept"),
        ],
        &overrides,
    );
    let got: Vec<(&str, Severity)> = found.iter().map(|d| (d.message.as_str(), d.rule.severity)).collect();
    assert_eq!(got, vec![("regraded", Severity::Info), ("kept", Severity::Error)]);
}

#[test]
fn audit_file_applies_configured_overrides() {
    let mut config = AuditConfig::default();
    config.rule_overrides = vec![RuleOverride {
        rule_id: "NRP-LIC-001".to_owned(),
        severity: RuleOverrideSeverity::Ignore,
    }];
    let project = build_project_context("/tmp/audit", Vec::new(), config);
    match audit_file("/tmp/audit/add.c", BARE_SOURCE, &project) {
        Ok(FileOutcome::Scanned(found)) => assert!(found.iter().all(|d| d.rule.id != "NRP-LIC-001")),
        _ => panic!("expected a scanned file"),
    }
}
