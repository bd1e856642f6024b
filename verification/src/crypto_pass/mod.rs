//! Platform-specific cryptographic safety checks.

pub mod api;
pub mod calls;
pub mod iv;

use vstd::prelude::*;
use vstd::string::StringSliceAdditionalSpecFns;

use crate::context::FileContext;
use crate::pass::{c_cpp, c_cpp_languages, Pass};
use crate::syntax::{child_by_field, named_children, node_text, node_wf, NodeView};
use crate::text::{bytes_eq, contains, seq_contains, seq_lower, seq_starts_with, starts_with, to_lower};
use crate::types::{diags_view, Diagnostic, DiagnosticView, FileRole, PlatformHint, SourceLanguage};
use api::{cc312_findings, check_cc312_direct_register, check_raw_key_in_api, raw_key_findings};
use calls::{
    all_calls, all_functions, check_flash_buf_to_nrf_crypto, check_interrupt_crypto, check_key_in_log,
    check_memset_zeroization, check_mutex_before_crypto, flash_findings, irq_over, log_over,
    memset_over, mutex_over,
};
use iv::{check_iv_reuse, iv_over};

verus! {

/// Substrings that mark a buffer as holding key material or secrets.
pub open spec fn crypto_buf_word(k: int) -> &'static str {
    if k == 0 {
        "key_buf"
    } else if k == 1 {
        "key_handle"
    } else if k == 2 {
        "key_material"
    } else if k == 3 {
        "plaintext"
    } else if k == 4 {
        "ciphertext"
    } else if k == 5 {
        "entropy"
    } else if k == 6 {
        "derived_"
    } else if k == 7 {
        "secret"
    } else if k == 8 {
        "nonce_buf"
    } else if k == 9 {
        "iv_buf"
    } else if k == 10 {
        "hmac_buf"
    } else if k == 11 {
        "aes_key"
    } else if k == 12 {
        "private_key"
    } else if k == 13 {
        "shared_secret"
    } else if k == 14 {
        "key"
    } else if k == 15 {
        "nonce"
    } else if k == 16 {
        "iv"
    } else {
        "iv"
    }
}

/// Number of entries of [`crypto_buf_word`].
pub open spec fn crypto_buf_word_count() -> int {
    17
}

fn crypto_buf_word_exec(k: usize) -> (r: &'static str)
    ensures
        r == crypto_buf_word(k as int),
{
    if k == 0 {
        "key_buf"
    } else if k == 1 {
        "key_handle"
    } else if k == 2 {
        "key_material"
    } else if k == 3 {
        "plaintext"
    } else if k == 4 {
        "ciphertext"
    } else if k == 5 {
        "entropy"
    } else if k == 6 {
        "derived_"
    } else if k == 7 {
        "secret"
    } else if k == 8 {
        "nonce_buf"
    } else if k == 9 {
        "iv_buf"
    } else if k == 10 {
        "hmac_buf"
    } else if k == 11 {
        "aes_key"
    } else if k == 12 {
        "private_key"
    } else if k == 13 {
        "shared_secret"
    } else if k == 14 {
        "key"
    } else if k == 15 {
        "nonce"
    } else if k == 16 {
        "iv"
    } else {
        "iv"
    }
}

fn crypto_buf_word_count_exec() -> (r: usize)
    ensures
        r == crypto_buf_word_count(),
{
    17
}

/// Logging functions and macros.
pub open spec fn log_function(k: int) -> &'static str {
    if k == 0 {
        "printf"
    } else if k == 1 {
        "printk"
    } else if k == 2 {
        "fprintf"
    } else if k == 3 {
        "snprintf"
    } else if k == 4 {
        "sprintf"
    } else if k == 5 {
        "LOG_ERR"
    } else if k == 6 {
        "LOG_WRN"
    } else if k == 7 {
        "LOG_DBG"
    } else if k == 8 {
        "LOG_INF"
    } else if k == 9 {
        "log_error"
    } else if k == 10 {
        "log_warn"
    } else if k == 11 {
        "log_debug"
    } else if k == 12 {
        "log_info"
    } else if k == 13 {
        "ESP_LOGE"
    } else if k == 14 {
        "ESP_LOGW"
    } else if k == 15 {
        "ESP_LOGD"
    } else if k == 16 {
        "ESP_LOGI"
    } else if k == 17 {
        "ESP_LOGV"
    } else if k == 18 {
        "NRF_LOG_ERROR"
    } else if k == 19 {
        "NRF_LOG_WARNING"
    } else if k == 20 {
        "NRF_LOG_INFO"
    } else if k == 21 {
        "NRF_LOG_DEBUG"
    } else {
        "NRF_LOG_DEBUG"
    }
}

/// Number of entries of [`log_function`].
pub open spec fn log_function_count() -> int {
    22
}

fn log_function_exec(k: usize) -> (r: &'static str)
    ensures
        r == log_function(k as int),
{
    if k == 0 {
        "printf"
    } else if k == 1 {
        "printk"
    } else if k == 2 {
        "fprintf"
    } else if k == 3 {
        "snprintf"
    } else if k == 4 {
        "sprintf"
    } else if k == 5 {
        "LOG_ERR"
    } else if k == 6 {
        "LOG_WRN"
    } else if k == 7 {
        "LOG_DBG"
    } else if k == 8 {
        "LOG_INF"
    } else if k == 9 {
        "log_error"
    } else if k == 10 {
        "log_warn"
    } else if k == 11 {
        "log_debug"
    } else if k == 12 {
        "log_info"
    } else if k == 13 {
        "ESP_LOGE"
    } else if k == 14 {
        "ESP_LOGW"
    } else if k == 15 {
        "ESP_LOGD"
    } else if k == 16 {
        "ESP_LOGI"
    } else if k == 17 {
        "ESP_LOGV"
    } else if k == 18 {
        "NRF_LOG_ERROR"
    } else if k == 19 {
        "NRF_LOG_WARNING"
    } else if k == 20 {
        "NRF_LOG_INFO"
    } else if k == 21 {
        "NRF_LOG_DEBUG"
    } else {
        "NRF_LOG_DEBUG"
    }
}

fn log_function_count_exec() -> (r: usize)
    ensures
        r == log_function_count(),
{
    22
}

/// Prefixes of hardware crypto driver calls.
pub open spec fn hw_crypto_prefix(k: int) -> &'static str {
    if k == 0 {
        "nrf_crypto_"
    } else if k == 1 {
        "nrf_cc3xx_"
    } else if k == 2 {
        "mbedtls_aes_"
    } else if k == 3 {
        "mbedtls_gcm_"
    } else if k == 4 {
        "esp_aes_"
    } else if k == 5 {
        "esp_gcm_"
    } else {
        "esp_gcm_"
    }
}

/// Number of entries of [`hw_crypto_prefix`].
pub open spec fn hw_crypto_prefix_count() -> int {
    6
}

fn hw_crypto_prefix_exec(k: usize) -> (r: &'static str)
    ensures
        r == hw_crypto_prefix(k as int),
{
    if k == 0 {
        "nrf_crypto_"
    } else if k == 1 {
        "nrf_cc3xx_"
    } else if k == 2 {
        "mbedtls_aes_"
    } else if k == 3 {
        "mbedtls_gcm_"
    } else if k == 4 {
        "esp_aes_"
    } else if k == 5 {
        "esp_gcm_"
    } else {
        "esp_gcm_"
    }
}

fn hw_crypto_prefix_count_exec() -> (r: usize)
    ensures
        r == hw_crypto_prefix_count(),
{
    6
}

/// Calls that acquire a lock.
pub open spec fn mutex_marker(k: int) -> &'static str {
    if k == 0 {
        "mutex_lock"
    } else if k == 1 {
        "k_mutex_lock"
    } else if k == 2 {
        "xSemaphoreTake"
    } else if k == 3 {
        "pthread_mutex_lock"
    } else if k == 4 {
        "nrf_crypto_mutex"
    } else {
        "nrf_crypto_mutex"
    }
}

/// Number of entries of [`mutex_marker`].
pub open spec fn mutex_marker_count() -> int {
    5
}

fn mutex_marker_exec(k: usize) -> (r: &'static str)
    ensures
        r == mutex_marker(k as int),
{
    if k == 0 {
        "mutex_lock"
    } else if k == 1 {
        "k_mutex_lock"
    } else if k == 2 {
        "xSemaphoreTake"
    } else if k == 3 {
        "pthread_mutex_lock"
    } else if k == 4 {
        "nrf_crypto_mutex"
    } else {
        "nrf_crypto_mutex"
    }
}

fn mutex_marker_count_exec() -> (r: usize)
    ensures
        r == mutex_marker_count(),
{
    5
}

/// Substrings of encrypting call names.
pub open spec fn encrypt_word(k: int) -> &'static str {
    if k == 0 {
        "encrypt"
    } else if k == 1 {
        "gcm_crypt"
    } else if k == 2 {
        "aes_crypt"
    } else if k == 3 {
        "ctr_crypt"
    } else if k == 4 {
        "ccm_encrypt"
    } else {
        "ccm_encrypt"
    }
}

/// Number of entries of [`encrypt_word`].
pub open spec fn encrypt_word_count() -> int {
    5
}

fn encrypt_word_exec(k: usize) -> (r: &'static str)
    ensures
        r == encrypt_word(k as int),
{
    if k == 0 {
        "encrypt"
    } else if k == 1 {
        "gcm_crypt"
    } else if k == 2 {
        "aes_crypt"
    } else if k == 3 {
        "ctr_crypt"
    } else if k == 4 {
        "ccm_encrypt"
    } else {
        "ccm_encrypt"
    }
}

fn encrypt_word_count_exec() -> (r: usize)
    ensures
        r == encrypt_word_count(),
{
    5
}

/// Text mentions a key, secret or crypto buffer (`text_mentions_crypto_buffer`).
pub open spec fn mentions_crypto(text: Seq<u8>) -> bool {
    exists|k: int| 0 <= k < crypto_buf_word_count() && #[trigger] seq_contains(seq_lower(text), crypto_buf_word(k).spec_bytes())
}

/// Whether [`mentions_crypto`] holds.
pub fn mentions_crypto_exec(text: &[u8]) -> (r: bool)
    ensures
        r == mentions_crypto(text@),
{
    let lower = to_lower(text);
    let mut k: usize = 0;
    while k < crypto_buf_word_count_exec()
        invariant
            k <= crypto_buf_word_count(),
            lower@ == seq_lower(text@),
            forall|m: int| 0 <= m < k ==> !#[trigger] seq_contains(seq_lower(text@), crypto_buf_word(m).spec_bytes()),
        decreases crypto_buf_word_count() - k,
    {
        let w = crypto_buf_word_exec(k);
        if contains(lower.as_slice(), w.as_bytes()) {
            assert(seq_contains(seq_lower(text@), crypto_buf_word(k as int).spec_bytes()));
            return true;
        }
        k = k + 1;
    }
    false
}

/// The call target is a logging function.
pub open spec fn is_log_function(text: Seq<u8>) -> bool {
    exists|k: int| 0 <= k < log_function_count() && text == #[trigger] log_function(k).spec_bytes()
}

/// Whether [`is_log_function`] holds.
pub fn is_log_function_exec(text: &[u8]) -> (r: bool)
    ensures
        r == is_log_function(text@),
{
    let mut k: usize = 0;
    while k < log_function_count_exec()
        invariant
            k <= log_function_count(),
            forall|m: int| 0 <= m < k ==> text@ != #[trigger] log_function(m).spec_bytes(),
        decreases log_function_count() - k,
    {
        let w = log_function_exec(k);
        if bytes_eq(text, w.as_bytes()) {
            assert((text@ == log_function(k as int).spec_bytes()));
            return true;
        }
        k = k + 1;
    }
    false
}

/// The call target starts with a hardware crypto prefix.
pub open spec fn has_hw_prefix(text: Seq<u8>) -> bool {
    exists|k: int| 0 <= k < hw_crypto_prefix_count() && #[trigger] seq_starts_with(text, hw_crypto_prefix(k).spec_bytes())
}

/// Whether [`has_hw_prefix`] holds.
pub fn has_hw_prefix_exec(text: &[u8]) -> (r: bool)
    ensures
        r == has_hw_prefix(text@),
{
    let mut k: usize = 0;
    while k < hw_crypto_prefix_count_exec()
        invariant
            k <= hw_crypto_prefix_count(),
            forall|m: int| 0 <= m < k ==> !#[trigger] seq_starts_with(text@, hw_crypto_prefix(m).spec_bytes()),
        decreases hw_crypto_prefix_count() - k,
    {
        let w = hw_crypto_prefix_exec(k);
        if starts_with(text, w.as_bytes()) {
            assert(seq_starts_with(text@, hw_crypto_prefix(k as int).spec_bytes()));
            return true;
        }
        k = k + 1;
    }
    false
}

/// The text holds a lock acquisition.
pub open spec fn has_mutex_marker(text: Seq<u8>) -> bool {
    exists|k: int| 0 <= k < mutex_marker_count() && #[trigger] seq_contains(text, mutex_marker(k).spec_bytes())
}

/// Whether [`has_mutex_marker`] holds.
pub fn has_mutex_marker_exec(text: &[u8]) -> (r: bool)
    ensures
        r == has_mutex_marker(text@),
{
    let mut k: usize = 0;
    while k < mutex_marker_count_exec()
        invariant
            k <= mutex_marker_count(),
            forall|m: int| 0 <= m < k ==> !#[trigger] seq_contains(text@, mutex_marker(m).spec_bytes()),
        decreases mutex_marker_count() - k,
    {
        let w = mutex_marker_exec(k);
        if contains(text, w.as_bytes()) {
            assert(seq_contains(text@, mutex_marker(k as int).spec_bytes()));
            return true;
        }
        k = k + 1;
    }
    false
}

/// The call target names an encrypting operation.
pub open spec fn is_encrypt_call(text: Seq<u8>) -> bool {
    exists|k: int| 0 <= k < encrypt_word_count() && #[trigger] seq_contains(text, encrypt_word(k).spec_bytes())
}

/// Whether [`is_encrypt_call`] holds.
pub fn is_encrypt_call_exec(text: &[u8]) -> (r: bool)
    ensures
        r == is_encrypt_call(text@),
{
    let mut k: usize = 0;
    while k < encrypt_word_count_exec()
        invariant
            k <= encrypt_word_count(),
            forall|m: int| 0 <= m < k ==> !#[trigger] seq_contains(text@, encrypt_word(m).spec_bytes()),
        decreases encrypt_word_count() - k,
    {
        let w = encrypt_word_exec(k);
        if contains(text, w.as_bytes()) {
            assert(seq_contains(text@, encrypt_word(k as int).spec_bytes()));
            return true;
        }
        k = k + 1;
    }
    false
}


/// Text of the function a call invokes.
pub open spec fn call_target(src: Seq<u8>, t: Seq<NodeView>, c: int) -> Option<Seq<u8>> {
    match child_by_field(t, c, "function".spec_bytes()) {
        Some(f) => node_text(src, t, f as int),
        None => None,
    }
}

/// The named argument nodes of a call.
pub open spec fn call_args(t: Seq<NodeView>, c: int) -> Option<Seq<usize>> {
    match child_by_field(t, c, "arguments".spec_bytes()) {
        Some(a) => Some(named_children(t, a as int)),
        None => None,
    }
}

/// Text of the first identifier with readable text in `lo..hi`, in pre-order.
/// Identifiers are leaves of the grammar, so this is the first identifier a
/// depth-first walk of a subtree reaches.
pub open spec fn ident_in(src: Seq<u8>, t: Seq<NodeView>, lo: int, hi: int) -> Option<Seq<u8>>
    decreases hi - lo,
{
    if hi <= lo {
        None
    } else if t[lo].kind == "identifier".spec_bytes() && node_text(src, t, lo) is Some {
        node_text(src, t, lo)
    } else {
        ident_in(src, t, lo + 1, hi)
    }
}

/// The source targets an nRF CryptoCell platform.
pub open spec fn nrf_platform(ctx: &FileContext) -> bool {
    ctx.platform == PlatformHint::Nrf52840 || ctx.platform == PlatformHint::Nrf5340 || ctx.platform
        == PlatformHint::Multi || seq_contains(ctx.source@, "nrf_crypto_".spec_bytes())
        || seq_contains(ctx.source@, "nrf_cc3xx_".spec_bytes())
}

/// The source targets an ESP32 platform.
pub open spec fn esp32_platform(ctx: &FileContext) -> bool {
    ctx.platform == PlatformHint::Esp32 || ctx.platform == PlatformHint::Multi || seq_contains(
        ctx.source@,
        "esp_aes_".spec_bytes(),
    ) || seq_contains(ctx.source@, "ESP_LOG".spec_bytes())
}

/// The lock check applies (`active_for_hardware_mutex`).
pub open spec fn mutex_check_active(ctx: &FileContext) -> bool {
    nrf_platform(ctx) || esp32_platform(ctx) || mentions_crypto(ctx.source@)
}

pub fn nrf_platform_exec(ctx: &FileContext) -> (r: bool)
    ensures
        r == nrf_platform(ctx),
{
    ctx.platform == PlatformHint::Nrf52840 || ctx.platform == PlatformHint::Nrf5340 || ctx.platform
        == PlatformHint::Multi || contains(ctx.source.as_slice(), "nrf_crypto_".as_bytes())
        || contains(ctx.source.as_slice(), "nrf_cc3xx_".as_bytes())
}

fn esp32_platform_exec(ctx: &FileContext) -> (r: bool)
    ensures
        r == esp32_platform(ctx),
{
    ctx.platform == PlatformHint::Esp32 || ctx.platform == PlatformHint::Multi || contains(
        ctx.source.as_slice(),
        "esp_aes_".as_bytes(),
    ) || contains(ctx.source.as_slice(), "ESP_LOG".as_bytes())
}

/// Whether the lock check applies.
pub fn mutex_check_active_exec(ctx: &FileContext) -> (r: bool)
    ensures
        r == mutex_check_active(ctx),
{
    nrf_platform_exec(ctx) || esp32_platform_exec(ctx) || mentions_crypto_exec(ctx.source.as_slice())
}

/// Text of the function call `c` invokes.
pub fn call_target_exec(ctx: &FileContext, c: usize) -> (r: Option<Vec<u8>>)
    requires
        ctx.wf(),
        c < ctx.tree@.len(),
    ensures
        r matches Some(v) ==> call_target(ctx.source@, ctx.tree@, c as int) == Some(v@),
        r is None ==> call_target(ctx.source@, ctx.tree@, c as int) is None,
{
    assert(node_wf(ctx.tree@, c as int));
    match ctx.tree.child_by_field(c, "function".as_bytes()) {
        Some(f) => ctx.tree.text(ctx.source.as_slice(), f),
        None => None,
    }
}

/// The named arguments of call `c`.
pub fn call_args_exec(ctx: &FileContext, c: usize) -> (r: Option<Vec<usize>>)
    requires
        ctx.wf(),
        c < ctx.tree@.len(),
    ensures
        r matches Some(v) ==> call_args(ctx.tree@, c as int) == Some(v@) && forall|k: int|
            0 <= k < v@.len() ==> #[trigger] v@[k] < ctx.tree@.len(),
        r is None ==> call_args(ctx.tree@, c as int) is None,
{
    assert(node_wf(ctx.tree@, c as int));
    match ctx.tree.child_by_field(c, "arguments".as_bytes()) {
        Some(a) => {
            assert(node_wf(ctx.tree@, a as int));
            Some(ctx.tree.named_children_of(a))
        },
        None => None,
    }
}

/// Text of the first identifier with readable text in the subtree of `i`.
pub fn ident_in_exec(ctx: &FileContext, i: usize) -> (r: Option<Vec<u8>>)
    requires
        ctx.wf(),
        i < ctx.tree@.len(),
    ensures
        r matches Some(v) ==> ident_in(ctx.source@, ctx.tree@, i as int, ctx.tree@[i as int].end as int)
            == Some(v@),
        r is None ==> ident_in(ctx.source@, ctx.tree@, i as int, ctx.tree@[i as int].end as int) is None,
{
    assert(node_wf(ctx.tree@, i as int));
    let hi = ctx.tree.ends[i];
    let mut k = i;
    while k < hi
        invariant
            ctx.wf(),
            i <= k <= hi,
            hi == ctx.tree@[i as int].end,
            hi <= ctx.tree@.len(),
            ident_in(ctx.source@, ctx.tree@, i as int, hi as int) == ident_in(
                ctx.source@,
                ctx.tree@,
                k as int,
                hi as int,
            ),
        decreases hi - k,
    {
        if ctx.tree.is_kind(k, "identifier".as_bytes()) {
            match ctx.tree.text(ctx.source.as_slice(), k) {
                Some(v) => {
                    return Some(v);
                },
                None => {},
            }
        }
        k = k + 1;
    }
    None
}

/// Pass 4: cryptographic safety checks.
#[derive(Debug, Default, Clone, Copy)]
pub struct CryptoPass;

/// Everything the crypto pass reports on a file, in order.
#[verifier::opaque]
pub open spec fn crypto_findings(ctx: &FileContext) -> Seq<DiagnosticView> {
    let role = ctx.role;
    if role == FileRole::ThirdParty || role == FileRole::Asm || role == FileRole::Cmake || role
        == FileRole::Config {
        Seq::empty()
    } else {
        memset_over(ctx, all_calls(ctx)) + log_over(ctx, all_calls(ctx)) + flash_findings(ctx) + (if mutex_check_active(ctx) {
            mutex_over(ctx, all_functions(ctx))
        } else {
            Seq::empty()
        }) + cc312_findings(ctx) + iv_over(ctx, all_functions(ctx)) + irq_over(ctx, all_functions(ctx))
            + raw_key_findings(ctx)
    }
}

impl Pass for CryptoPass {
    fn name(&self) -> (r: &'static str)
        ensures
            r@ == "crypto"@,
    {
        "crypto"
    }

    fn languages(&self) -> (r: Option<Vec<SourceLanguage>>)
        ensures
            r matches Some(v) && v@ == c_cpp(),
    {
        Some(c_cpp_languages())
    }

    fn run(&self, ctx: &FileContext) -> (r: Vec<Diagnostic>)
        ensures
            diags_view(r@) == crypto_findings(ctx),
    {
        proof {
            reveal(crypto_findings);
        }
        let mut out: Vec<Diagnostic> = Vec::new();
        let role = ctx.role;
        if role == FileRole::ThirdParty || role == FileRole::Asm || role == FileRole::Cmake || role
            == FileRole::Config {
            assert(diags_view(out@) =~= crypto_findings(ctx));
            return out;
        }
        assert(diags_view(out@) =~= Seq::<DiagnosticView>::empty());
        check_memset_zeroization(ctx, &mut out);
        check_key_in_log(ctx, &mut out);
        check_flash_buf_to_nrf_crypto(ctx, &mut out);
        let ghost before_mutex = diags_view(out@);
        if mutex_check_active_exec(ctx) {
            check_mutex_before_crypto(ctx, &mut out);
        }
        assert(diags_view(out@) =~= before_mutex + (if mutex_check_active(ctx) {
            mutex_over(ctx, all_functions(ctx))
        } else {
            Seq::empty()
        }));
        check_cc312_direct_register(ctx, &mut out);
        check_iv_reuse(ctx, &mut out);
        check_interrupt_crypto(ctx, &mut out);
        check_raw_key_in_api(ctx, &mut out);
        assert(diags_view(out@) =~= crypto_findings(ctx));
        out
    }
}

} // verus!
