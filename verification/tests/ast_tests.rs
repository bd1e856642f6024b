use nirapod_audit_core::ast_pass::AstPass;
use nirapod_audit_core::context::{build_file_context, build_project_context};
use nirapod_audit_core::pass::Pass;
use nirapod_audit_core::{AuditConfig, Diagnostic};

fn run_temp_fixture(name: &str, raw: &str) -> Vec<Diagnostic> {
    let root = "/tmp/ast-pass";
    let file = format!("{root}/{name}");
    let mut project = build_project_context(root, vec![file.clone()], AuditConfig::default());
    project.record_group_definitions(raw);
    let context = match build_file_context(&file, raw, &project) {
        Ok(c) => c,
        Err(_) => panic!("failed to build context"),
    };
    AstPass.run(&context)
}

fn ids(diagnostics: &[Diagnostic]) -> Vec<&str> {
    diagnostics.iter().map(|d| d.rule.id.as_str()).collect()
}

#[test]
fn tests_generic_file_brief_triggers_warning() {
    let diagnostics = run_temp_fixture(
        "generic-brief.h",
        "/**\n * @file generic-brief.h\n * @brief driver\n *\n * @details\n * Handles authenticated encryption for Nordic secure elements.\n *\n * @author Nirapod Team\n * @date 2026\n * @version 0.1.0\n */\n#pragma once\n",
    );
    assert_eq!(diagnostics.len(), 1);
    assert_eq!(diagnostics[0].rule.id, "NRP-DOX-003");
}

#[test]
fn tests_missing_details_and_meta_are_reported() {
    let diagnostics = run_temp_fixture(
        "missing-details.h",
        "/**\n * @file missing-details.h\n * @brief AES-GCM key wrapping entry points.\n */\n#pragma once\n",
    );
    assert_eq!(ids(&diagnostics), vec!["NRP-DOX-004", "NRP-DOX-005"]);
}

#[test]
fn tests_missing_brief_is_reported() {
    let diagnostics = run_temp_fixture(
        "missing-brief.h",
        "/**\n * @file missing-brief.h\n *\n * @details\n * Exposes secure packet parsing helpers.\n *\n * @author Nirapod Team\n * @date 2026\n * @version 0.1.0\n */\n#pragma once\n",
    );
    assert_eq!(diagnostics.len(), 1);
    assert_eq!(diagnostics[0].rule.id, "NRP-DOX-002");
}

#[test]
fn tests_function_doc_gaps_are_reported() {
    let diagnostics = run_temp_fixture(
        "missing-fn-tags.h",
        "/**\n * @file missing-fn-tags.h\n * @brief Packet authentication helpers.\n *\n * @details\n * Declares the public parser entry points.\n *\n * @author Nirapod Team\n * @date 2026\n * @version 0.1.0\n *\n * SPDX-License-Identifier: APACHE-2.0\n * SPDX-FileCopyrightText: 2026 Nirapod Contributors\n */\n#pragma once\n\n/**\n * @details\n * Parses one framed packet.\n */\nint parse_packet(const uint8_t *data, size_t len);\n",
    );
    let ids = ids(&diagnostics);
    assert!(ids.contains(&"NRP-DOX-013"));
    assert!(ids.contains(&"NRP-DOX-014"));
    assert!(ids.contains(&"NRP-DOX-015"));
}

#[test]
fn module_doc_without_defgroup_is_reported() {
    let diagnostics = run_temp_fixture(
        "module-doc.h",
        "/**\n * @file module-doc.h\n * @brief Crypto module documentation.\n *\n * @details\n * Collects the public API pages for the crypto subsystem.\n *\n * @author Nirapod Team\n * @date 2026\n * @version 0.1.0\n *\n * SPDX-License-Identifier: APACHE-2.0\n * SPDX-FileCopyrightText: 2026 Nirapod Contributors\n */\n#pragma once\n",
    );
    assert!(ids(&diagnostics).contains(&"NRP-DOX-021"));
}

#[test]
fn missing_file_header_reports_first_line() {
    let diagnostics = run_temp_fixture("bare.c", "int x;\n");
    assert_eq!(ids(&diagnostics), vec!["NRP-DOX-001"]);
    assert_eq!(diagnostics[0].span.start_line, 1);
    assert_eq!(diagnostics[0].span.snippet, "int x;");
    assert_eq!(diagnostics[0].message, "No file-level Doxygen block was found.");
}

#[test]
fn function_doc_messages_name_the_parameters() {
    let diagnostics = run_temp_fixture(
        "api.h",
        "/**\n * @file api.h\n * @brief Packet framing for the radio link.\n * @details Frames.\n * @author A\n * @date 2026\n * @version 1\n * @ingroup radio\n */\n#pragma once\n\n/**\n * @brief Sends.\n * @param buf data\n * @return status\n * @pre ready\n * @see recv\n */\nint send(const char *buf, int len);\n",
    );
    let d = diagnostics.iter().find(|d| d.rule.id == "NRP-DOX-014").expect("param finding");
    assert_eq!(d.message, "Function 'send' is missing @param for: len.");
    assert_eq!(d.help.as_deref(), Some("Add @param entries for len."));
    assert_eq!(d.span.start_line, 19);
    assert!(ids(&diagnostics).iter().all(|id| *id != "NRP-DOX-015" && *id != "NRP-DOX-018"));
}

#[test]
fn undefined_ingroup_is_reported_against_recorded_groups() {
    let raw = "/**\n * @file a.h\n * @brief Link layer framing helpers.\n * @details d\n * @author a\n * @date d\n * @version v\n * @ingroup missing\n */\nint f(void);\n";
    let mut project = build_project_context("/tmp/x", vec!["/tmp/x/a.h".to_owned()], AuditConfig::default());
    project.record_group_definitions("/** @defgroup present Present */");
    let ctx = build_file_context("/tmp/x/a.h", raw, &project).unwrap_or_else(|_| panic!("ctx"));
    let diagnostics = AstPass.run(&ctx);
    let d = diagnostics.iter().find(|d| d.rule.id == "NRP-DOX-020").expect("undefined group");
    assert_eq!(d.message, "@ingroup 'missing' references an undefined group.");
    assert_eq!(d.span.start_line, 8);
}

#[test]
fn plain_cpp_enum_and_undocumented_struct_field() {
    let raw = "/**\n * @file t.hpp\n * @brief Timer register layouts for the scheduler.\n * @details d\n * @author a\n * @date d\n * @version v\n * @ingroup g\n */\n#pragma once\nenum Mode { A, B };\nstruct Reg {\n  int value;\n};\n";
    let diagnostics = run_temp_fixture("t.hpp", raw);
    let ids = ids(&diagnostics);
    assert!(ids.contains(&"NRP-DOX-010"));
    assert!(ids.contains(&"NRP-DOX-011"));
    assert!(ids.contains(&"NRP-DOX-008"));
    let field = diagnostics.iter().find(|d| d.rule.id == "NRP-DOX-009").expect("field");
    assert_eq!(field.message, "Struct field 'unnamed' has no ///< inline documentation.");
}

#[test]
fn third_party_files_are_skipped() {
    let diagnostics = run_temp_fixture("vendor/lib.c", "int x;\n");
    assert!(diagnostics.is_empty());
}
