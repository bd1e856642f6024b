use nirapod_audit_core::context::{build_file_context, build_project_context};
use nirapod_audit_core::pass::Pass;
use nirapod_audit_core::style_pass::StylePass;
use nirapod_audit_core::{AuditConfig, Diagnostic};

fn run_style(name: &str, raw: &str) -> Vec<Diagnostic> {
    let file = format!("/tmp/style/{name}");
    let project = build_project_context("/tmp/style", vec![file.clone()], AuditConfig::default());
    let context = match build_file_context(&file, raw, &project) {
        Ok(c) => c,
        Err(_) => panic!("failed to build context"),
    };
    StylePass.run(&context)
}

#[test]
fn generic_brief_is_reported() {
    let diagnostics = run_style("generic.h", "/**\n * @brief Driver\n */\nvoid generic_driver(void);\n");
    let d = diagnostics.iter().find(|d| d.rule.id == "NRP-STYLE-003").expect("generic brief");
    assert_eq!(d.message, "@brief text is too generic: \"Driver\".");
    assert_eq!(d.span.start_line, 2);
}

#[test]
fn crypto_doc_without_hardware_word_is_reported() {
    let diagnostics = run_style(
        "crypto.h",
        "/**\n * @brief Encrypt payload blocks.\n * @details Uses the hardware accelerator for block encryption.\n */\nvoid crypto_encrypt_block(void);\n",
    );
    let d = diagnostics.iter().find(|d| d.rule.id == "NRP-STYLE-004").expect("hardware word");
    assert_eq!(
        d.message,
        "Crypto function 'crypto_encrypt_block' documentation does not name the hardware backend."
    );
    assert_eq!(d.span.start_line, 3);
}

#[test]
fn crypto_doc_with_hardware_word_is_allowed() {
    let diagnostics = run_style(
        "crypto-ok.h",
        "/**\n * @brief Encrypt payload blocks.\n * @details Uses the CC310 accelerator for block encryption.\n */\nvoid crypto_encrypt_block(void);\n",
    );
    assert!(!diagnostics.iter().any(|d| d.rule.id == "NRP-STYLE-004"));
}

#[test]
fn two_word_generic_entries_and_file_headers() {
    let raw = "/** @file x.h @brief driver */\n/**\n * @brief AES driver.\n */\nint aes_run(void);\n";
    let diagnostics = run_style("x.h", raw);
    let ids: Vec<&str> = diagnostics.iter().map(|d| d.rule.id.as_str()).collect();
    assert_eq!(ids, vec!["NRP-STYLE-003", "NRP-STYLE-004"]);
    assert_eq!(diagnostics[0].span.start_line, 3);
}
