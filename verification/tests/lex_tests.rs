use nirapod_audit_core::context::{build_file_context, build_project_context};
use nirapod_audit_core::lex_pass::LexPass;
use nirapod_audit_core::pass::Pass;
use nirapod_audit_core::{AuditConfig, Diagnostic};

fn run_lex(name: &str, raw: &str) -> Vec<Diagnostic> {
    let file = format!("/tmp/lex-pass/{name}");
    let project = build_project_context("/tmp/lex-pass", vec![file.clone()], AuditConfig::default());
    let context = match build_file_context(&file, raw, &project) {
        Ok(c) => c,
        Err(_) => panic!("failed to build context"),
    };
    LexPass.run(&context)
}

fn ids(diagnostics: &[Diagnostic]) -> Vec<&str> {
    diagnostics.iter().map(|d| d.rule.id.as_str()).collect()
}

#[test]
fn tests_spdx_outside_doc_block_triggers_warning() {
    let diagnostics = run_lex(
        "spdx-outside.h",
        "/**\n * @file sample.h\n */\n// SPDX-License-Identifier: APACHE-2.0\n// SPDX-FileCopyrightText: 2026 Nirapod Contributors\n#pragma once\n",
    );
    assert_eq!(diagnostics.len(), 1);
    assert_eq!(diagnostics[0].rule.id, "NRP-LIC-004");
    assert_eq!(diagnostics[0].span.start_line, 4);
}

#[test]
fn tests_banned_phrase_triggers_style_warning() {
    let diagnostics = run_lex(
        "phrase.h",
        "/**\n * @file phrase.h\n * @brief Packet parser.\n *\n * @details\n * It is important to note that this helper validates framed packets.\n *\n * @author Nirapod Team\n * @date 2026\n * @version 0.1.0\n *\n * SPDX-License-Identifier: APACHE-2.0\n * SPDX-FileCopyrightText: 2026 Nirapod Contributors\n */\n#pragma once\n",
    );
    assert_eq!(diagnostics.len(), 1);
    assert_eq!(diagnostics[0].rule.id, "NRP-STYLE-001");
    assert_eq!(
        diagnostics[0].message,
        "Banned phrase \"it is important to note that\" found in documentation comment."
    );
}

#[test]
fn missing_spdx_and_early_guard_are_reported() {
    let diagnostics = run_lex("guard.h", "\n#pragma once\n/** @file guard.h */\n");
    assert_eq!(ids(&diagnostics), vec!["NRP-LIC-001", "NRP-LIC-002", "NRP-LIC-003"]);
    assert_eq!(
        diagnostics[2].message,
        "Include guard found at line 2 before the file-level Doxygen block."
    );
    assert_eq!(diagnostics[2].span.start_line, 2);
}

#[test]
fn banned_words_need_word_boundaries_and_doc_comments() {
    let raw = "/**\n * @file w.c\n * A robust parser; we ensure it\n * robustness — leverage_x\n * SPDX-License-Identifier: MIT\n * SPDX-FileCopyrightText: x\n */\n// robust outside docs\n";
    let diagnostics = run_lex("w.c", raw);
    assert_eq!(ids(&diagnostics), vec!["NRP-STYLE-001", "NRP-STYLE-001", "NRP-STYLE-002"]);
    assert_eq!(diagnostics[0].message, "Banned word \"robust\" found in documentation comment.");
    assert_eq!(
        diagnostics[0].help.as_deref(),
        Some("Say what makes it reliable instead of calling it robust.")
    );
    assert_eq!(diagnostics[1].message, "Banned word \"ensure\" found in documentation comment.");
    assert_eq!(diagnostics[2].span.start_line, 4);
}

#[test]
fn third_party_and_asm_are_skipped_by_lex() {
    assert!(run_lex("third_party/x.c", "int x;\n").is_empty());
}
