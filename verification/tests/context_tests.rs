use nirapod_audit_core::context::{
    build_file_context, build_project_context, detect_file_role, resolve_platform_hint,
};
use nirapod_audit_core::{AuditConfig, FileRole, PlatformHint};

#[test]
fn detects_common_file_roles() {
    assert_eq!(detect_file_role("include/module-doc.h"), FileRole::ModuleDoc);
    assert_eq!(detect_file_role("src/crypto_test.cpp"), FileRole::Test);
    assert_eq!(detect_file_role("vendor/sdk/aes.c"), FileRole::ThirdParty);
}

#[test]
fn resolves_platform_from_source_markers() {
    assert_eq!(resolve_platform_hint("CC312 backend", PlatformHint::Auto), PlatformHint::Nrf5340);
    assert_eq!(resolve_platform_hint("CC310 backend", PlatformHint::Auto), PlatformHint::Nrf52840);
}

#[test]
fn detects_remaining_file_roles() {
    assert_eq!(detect_file_role("CMakeLists.txt"), FileRole::Cmake);
    assert_eq!(detect_file_role("cmake/toolchain.cmake"), FileRole::Cmake);
    assert_eq!(detect_file_role("Kconfig"), FileRole::Config);
    assert_eq!(detect_file_role("boot/startup.S"), FileRole::Asm);
    assert_eq!(detect_file_role("include/aes.h"), FileRole::PublicHeader);
    assert_eq!(detect_file_role("src/aes.c"), FileRole::Implementation);
    assert_eq!(detect_file_role("lib\\Third_Party\\x.c"), FileRole::ThirdParty);
}

#[test]
fn configured_platform_wins_and_host_is_fallback() {
    assert_eq!(resolve_platform_hint("CC312", PlatformHint::Esp32), PlatformHint::Esp32);
    assert_eq!(resolve_platform_hint("#include \"esp_aes.h\"", PlatformHint::Auto), PlatformHint::Esp32);
    assert_eq!(resolve_platform_hint("plain", PlatformHint::Auto), PlatformHint::Host);
}

#[test]
fn builds_file_context_from_text() {
    let project = build_project_context(".", vec!["example.h".to_owned()], AuditConfig::default());
    assert_eq!(project.all_files.len(), 1);
    let ctx = build_file_context("example.h", "int api(void);\r\nint b(void);\n", &project)
        .unwrap_or_else(|_| panic!("context"));
    assert_eq!(ctx.lines, vec!["int api(void);".to_owned(), "int b(void);".to_owned()]);
    assert_eq!(ctx.role, FileRole::PublicHeader);
    assert_eq!(ctx.platform, PlatformHint::Host);
    assert!(!ctx.is_cpp);
    assert_eq!(ctx.max_function_lines, 60);
    assert!(build_file_context("notes.md", "text", &project).is_err());
}

#[test]
fn records_group_definitions() {
    let mut project = build_project_context(".", Vec::new(), AuditConfig::default());
    project.record_group_definitions("/** @defgroup crypto Crypto\n * @{ */\n// @defgroup   io\n@defgroup\n");
    assert_eq!(project.defined_groups, vec![b"crypto".to_vec(), b"io".to_vec()]);
}
