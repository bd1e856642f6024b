use nirapod_audit_core::report::{render_diagnostic, render_rule_detail, render_rule_list};
use nirapod_audit_core::rules::find_rule;
use nirapod_audit_core::{Diagnostic, Rule, RuleCategory, Severity, Span};
use nirapod_audit_core::progress::ProgressReporter;
use nirapod_audit_core::summary::{render_summary, AuditSummaryView};

#[test]
fn renders_summary_block() {
    let rendered = render_summary(AuditSummaryView {
        scanned_files: 4,
        skipped_files: 1,
        errors: 2,
        warnings: 3,
        infos: 1,
    });

    assert!(rendered.contains("scanned files: 4"));
    assert!(rendered.contains("skipped files: 1"));
    assert!(rendered.contains("warnings: 3"));
}

#[test]
fn renders_exact_summary_text() {
    let rendered = render_summary(AuditSummaryView {
        scanned_files: 120,
        skipped_files: 0,
        errors: 7,
        warnings: 15,
        infos: 9,
    });
    assert_eq!(
        rendered,
        "\nsummary\n  scanned files: 120\n  skipped files: 0\n  errors: 7\n  warnings: 15\n  infos: 9\n"
    );
}

#[test]
fn progress_on_a_terminal_rewrites_one_line() {
    let mut p = ProgressReporter::new(true);
    assert_eq!(p.update(1, 3, "a.c"), "\r\x1b[2K[1/3] a.c");
    assert!(p.has_live_line);
    assert_eq!(p.emit("finding\n"), "\r\x1b[2Kfinding\n");
    assert!(!p.has_live_line);
    assert_eq!(p.emit("more\n"), "more\n");
    assert_eq!(p.update(2, 3, "b.c"), "\r\x1b[2K[2/3] b.c");
    assert_eq!(p.finish(), "\r\x1b[2K");
    assert_eq!(p.finish(), "");
}

#[test]
fn progress_elsewhere_prints_plain_lines() {
    let mut p = ProgressReporter::new(false);
    assert_eq!(p.update(10, 12, "src/x.c"), "[10/12] src/x.c\n");
    assert_eq!(p.emit("text"), "text");
    assert_eq!(p.finish(), "");
    assert!(!p.has_live_line);
}

#[test]
fn renders_rustc_style_block() {
    let diagnostic = Diagnostic {
        rule: Rule {
            id: String::from("NRP-LIC-001"),
            category: RuleCategory::License,
            severity: Severity::Error,
            title: String::from("missing-spdx-identifier"),
            description: String::from("SPDX line missing."),
            rationale: String::from("License clarity matters."),
            references: Vec::new(),
            languages: None,
        },
        span: Span::new("a.h", 1, 1, 1, 4, "int"),
        message: String::from("missing SPDX header"),
        notes: vec![String::from("add SPDX lines inside the file header")],
        help: Some(String::from("use the standard header template")),
        related_spans: Vec::new(),
    };

    let rendered = render_diagnostic(&diagnostic);
    assert!(rendered.contains("error[NRP-LIC-001]: missing SPDX header"));
    assert!(rendered.contains("--> a.h:1:1"));
    assert!(rendered.contains("= help: use the standard header template"));
}

#[test]
fn renders_rule_details() {
    let rule = find_rule("NRP-LIC-001").expect("expected license rule");
    let rendered = render_rule_detail(&rule);

    assert!(rendered.contains("category: LICENSE"));
    assert!(rendered.contains("config: rules.overrides.NRP-LIC-001.severity"));
    assert!(rendered.contains("SPDX License List"));
}

#[test]
fn renders_language_scope_for_doxygen_rule() {
    let rule = find_rule("NRP-DOX-012").expect("expected doxygen rule");
    let rendered = render_rule_detail(&rule);

    assert!(rendered.contains("languages: c, cpp"));
}

#[test]
fn unknown_rule_id_is_not_found() {
    assert!(find_rule("NRP-XYZ-999").is_none());
}

#[test]
fn lists_every_rule_in_catalog_order() {
    let listing = render_rule_list();
    let lines: Vec<&str> = listing.lines().collect();
    assert_eq!(lines.len(), nirapod_audit_core::rules::all_rule_ids().len());
    assert_eq!(lines[0], "NRP-LIC-001  error  LICENSE  missing-spdx-identifier");
    assert!(lines.iter().any(|l| l.starts_with("NRP-STYLE-004  ")));
}
