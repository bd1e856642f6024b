use nirapod_audit_core::context::{build_file_context, build_project_context};
use nirapod_audit_core::crypto_pass::CryptoPass;
use nirapod_audit_core::pass::Pass;
use nirapod_audit_core::{AuditConfig, Diagnostic, PlatformHint};

fn run_crypto(name: &str, raw: &str, platform: PlatformHint) -> Vec<Diagnostic> {
    let file = format!("/tmp/crypto/{name}");
    let mut config = AuditConfig::default();
    config.platform = platform;
    let project = build_project_context("/tmp/crypto", vec![file.clone()], config);
    let context = match build_file_context(&file, raw, &project) {
        Ok(c) => c,
        Err(_) => panic!("failed to build context"),
    };
    CryptoPass.run(&context)
}

#[test]
fn nrf_crypto_const_buffer_is_reported() {
    let diagnostics = run_crypto(
        "const-buf.c",
        "void use_const(void) {\n    static const uint8_t key_buf[16] = {0};\n    nrf_crypto_aes_init(key_buf, 0, 0);\n}\n",
        PlatformHint::Nrf52840,
    );
    assert!(diagnostics.iter().any(|d| d.rule.id == "NRP-CRYPTO-004"));
}

#[test]
fn cc312_register_access_is_reported() {
    let diagnostics = run_crypto(
        "cc312.c",
        "void poke(void) {\n    NRF_CRYPTOCELL->ENABLE = 1;\n}\n",
        PlatformHint::Nrf5340,
    );
    assert!(diagnostics.iter().any(|d| d.rule.id == "NRP-CRYPTO-006"));
}

#[test]
fn crypto_in_interrupt_handler_is_reported() {
    let diagnostics = run_crypto(
        "isr.c",
        "void rng_irq_handler(void) {\n    nrf_crypto_aes_init(0, 0, 0);\n}\n",
        PlatformHint::Auto,
    );
    assert!(diagnostics.iter().any(|d| d.rule.id == "NRP-CRYPTO-008"));
}

#[test]
fn raw_key_parameter_in_public_api_is_reported() {
    let diagnostics = run_crypto(
        "api.h",
        "/**\n * @brief Encrypts payload.\n * @details Uses CC310 backend.\n */\nint encrypt_payload(const uint8_t *key, size_t len);\n",
        PlatformHint::Auto,
    );
    let d = diagnostics.iter().find(|d| d.rule.id == "NRP-CRYPTO-009").expect("raw key");
    assert_eq!(d.message, "Public API parameter 'key' exposes raw key bytes.");
    assert_eq!(d.notes, vec!["The function brief is \"Encrypts payload.\".".to_owned()]);
}

#[test]
fn memset_log_and_iv_reuse_are_reported() {
    let raw = "void wipe(void) {\n  uint8_t key_buf[16];\n  memset(key_buf, 0, 16);\n  printf(\"%d\", key_buf);\n  aes_encrypt(ctx, iv, in, out);\n  aes_encrypt(ctx, iv, in2, out2);\n}\n";
    let diagnostics = run_crypto("misuse.c", raw, PlatformHint::Host);
    let ids: Vec<&str> = diagnostics.iter().map(|d| d.rule.id.as_str()).collect();
    assert_eq!(ids, vec!["NRP-CRYPTO-001", "NRP-CRYPTO-002", "NRP-CRYPTO-007"]);
    assert_eq!(diagnostics[0].message, "memset() used to zero crypto buffer 'key_buf'.");
    assert_eq!(
        diagnostics[1].message,
        "Key material 'key_buf' passed to log function 'printf()'."
    );
    assert_eq!(diagnostics[2].message, "IV/nonce 'iv' reused in a second encrypt call.");
    assert_eq!(diagnostics[2].notes, vec!["The first use appeared at line 5.".to_owned()]);
    assert_eq!(diagnostics[2].span.start_line, 6);
}

#[test]
fn hardware_call_without_lock_is_reported_once_per_function() {
    let raw = "void go(void) {\n  nrf_crypto_init();\n  nrf_crypto_aes_init(0);\n}\nvoid locked(void) {\n  k_mutex_lock(&m, K_FOREVER);\n  nrf_crypto_init();\n}\n";
    let diagnostics = run_crypto("lock.c", raw, PlatformHint::Nrf52840);
    let hits: Vec<&Diagnostic> = diagnostics.iter().filter(|d| d.rule.id == "NRP-CRYPTO-005").collect();
    assert_eq!(hits.len(), 1);
    assert_eq!(
        hits[0].message,
        "Hardware crypto call 'nrf_crypto_init()' without visible mutex acquire in function."
    );
}
