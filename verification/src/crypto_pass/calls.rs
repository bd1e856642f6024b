//! Crypto checks on individual calls: zeroization, logging, flash buffers,
//! locking and interrupt context.

use vstd::prelude::*;
use vstd::string::StringSliceAdditionalSpecFns;

use super::{
    call_args, call_args_exec, call_target, call_target_exec, has_hw_prefix, has_hw_prefix_exec,
    has_mutex_marker, has_mutex_marker_exec, is_log_function, is_log_function_exec, mentions_crypto,
    mentions_crypto_exec, nrf_platform, nrf_platform_exec,
};
use crate::context::FileContext;
use crate::diagnostic::{chars_of, concat3, emit, finding, node_span_of, node_to_span, text_of};
use crate::rules::{rule_view, RuleId};
use crate::syntax::{child_by_field, node_text, node_wf, subtree_of_kind, NodeView};
use crate::text::{bytes_eq, contains, seq_contains, seq_lower, seq_starts_with, seq_trim, starts_with, to_lower, trim, vv};
use crate::types::{diags_view, Diagnostic, DiagnosticView};

verus! {

/// The call expressions of the whole file.
pub open spec fn all_calls(ctx: &FileContext) -> Seq<usize> {
    subtree_of_kind(ctx.tree@, 0, "call_expression".spec_bytes())
}

/// The function definitions of the whole file.
pub open spec fn all_functions(ctx: &FileContext) -> Seq<usize> {
    subtree_of_kind(ctx.tree@, 0, "function_definition".spec_bytes())
}

/// `memset(buf, 0, ..)` on a crypto buffer.
pub open spec fn memset_at(ctx: &FileContext, c: int) -> Seq<DiagnosticView> {
    let t = ctx.tree@;
    let src = ctx.source@;
    if call_target(src, t, c) != Some("memset".spec_bytes()) {
        Seq::empty()
    } else {
        match call_args(t, c) {
            None => Seq::empty(),
            Some(args) => if args.len() < 2 {
                Seq::empty()
            } else {
                match (node_text(src, t, args[0] as int), node_text(src, t, args[1] as int)) {
                    (Some(b), Some(v)) => if seq_trim(v) == "0".spec_bytes() && mentions_crypto(b) {
                        seq![
                            finding(
                                RuleId::Crypto001,
                                node_span_of(ctx.path@, t[c], ctx.ls()),
                                "memset() used to zero crypto buffer '"@ + chars_of(b) + "'."@,
                                "memset-based zeroization can be optimized away by the compiler."@,
                                "Use mbedtls_platform_zeroize(), explicit_bzero(), or another non-elidable wipe primitive."@,
                            ),
                        ]
                    } else {
                        Seq::empty()
                    },
                    _ => Seq::empty(),
                }
            },
        }
    }
}

/// Findings of [`memset_at`] over the given calls, in order.
pub open spec fn memset_over(ctx: &FileContext, cs: Seq<usize>) -> Seq<DiagnosticView>
    decreases cs.len(),
{
    if cs.len() == 0 {
        Seq::empty()
    } else {
        memset_over(ctx, cs.drop_last()) + memset_at(ctx, cs.last() as int)
    }
}

/// First argument that is not a literal and mentions key material.
pub open spec fn first_secret_arg(src: Seq<u8>, t: Seq<NodeView>, args: Seq<usize>) -> Option<Seq<u8>>
    decreases args.len(),
{
    if args.len() == 0 {
        None
    } else {
        let rest = args.subrange(1, args.len() as int);
        match node_text(src, t, args[0] as int) {
            None => first_secret_arg(src, t, rest),
            Some(x) => {
                let tr = seq_trim(x);
                if seq_starts_with(tr, "\"".spec_bytes()) || seq_starts_with(tr, "'".spec_bytes()) {
                    first_secret_arg(src, t, rest)
                } else if !mentions_crypto(x) {
                    first_secret_arg(src, t, rest)
                } else {
                    Some(x)
                }
            },
        }
    }
}

/// Key material passed to a log call.
pub open spec fn log_at(ctx: &FileContext, c: int) -> Seq<DiagnosticView> {
    let t = ctx.tree@;
    let src = ctx.source@;
    match call_target(src, t, c) {
        None => Seq::empty(),
        Some(tg) => if !is_log_function(tg) {
            Seq::empty()
        } else {
            match call_args(t, c) {
                None => Seq::empty(),
                Some(args) => match first_secret_arg(src, t, args) {
                    Some(x) => seq![
                        finding(
                            RuleId::Crypto002,
                            node_span_of(ctx.path@, t[c], ctx.ls()),
                            "Key material '"@ + chars_of(x) + "' passed to log function '"@ + chars_of(tg)
                                + "()'."@,
                            "Logs should report status, not secrets or secret-derived values."@,
                            "Remove the secret-bearing argument from the log call."@,
                        ),
                    ],
                    None => Seq::empty(),
                },
            }
        },
    }
}

/// Findings of [`log_at`] over the given calls, in order.
pub open spec fn log_over(ctx: &FileContext, cs: Seq<usize>) -> Seq<DiagnosticView>
    decreases cs.len(),
{
    if cs.len() == 0 {
        Seq::empty()
    } else {
        log_over(ctx, cs.drop_last()) + log_at(ctx, cs.last() as int)
    }
}

/// Names declared by declarations whose text holds `const `: the last
/// identifier of each (`collect_const_names`).
pub open spec fn const_names_over(src: Seq<u8>, t: Seq<NodeView>, ds: Seq<usize>) -> Seq<Seq<u8>>
    decreases ds.len(),
{
    if ds.len() == 0 {
        Seq::empty()
    } else {
        let prev = const_names_over(src, t, ds.drop_last());
        let d = ds.last() as int;
        match node_text(src, t, d) {
            Some(x) => if seq_contains(x, "const ".spec_bytes()) {
                let ids = subtree_of_kind(t, d, "identifier".spec_bytes());
                if ids.len() > 0 {
                    match node_text(src, t, ids.last() as int) {
                        Some(n) => prev.push(n),
                        None => prev,
                    }
                } else {
                    prev
                }
            } else {
                prev
            },
            None => prev,
        }
    }
}

/// The const-declared names of the file.
pub open spec fn const_names(ctx: &FileContext) -> Seq<Seq<u8>> {
    const_names_over(ctx.source@, ctx.tree@, subtree_of_kind(ctx.tree@, 0, "declaration".spec_bytes()))
}

/// First argument that is a string literal or a const-declared name.
pub open spec fn flash_arg(src: Seq<u8>, t: Seq<NodeView>, args: Seq<usize>, names: Seq<Seq<u8>>) -> Option<Seq<u8>>
    decreases args.len(),
{
    if args.len() == 0 {
        None
    } else {
        match node_text(src, t, args[0] as int) {
            Some(x) => if seq_starts_with(x, "\"".spec_bytes()) || names.contains(x) {
                Some(x)
            } else {
                flash_arg(src, t, args.subrange(1, args.len() as int), names)
            },
            None => flash_arg(src, t, args.subrange(1, args.len() as int), names),
        }
    }
}

/// A flash-resident buffer passed to an `nrf_crypto_` call.
pub open spec fn flash_at(ctx: &FileContext, names: Seq<Seq<u8>>, c: int) -> Seq<DiagnosticView> {
    let t = ctx.tree@;
    let src = ctx.source@;
    match call_target(src, t, c) {
        None => Seq::empty(),
        Some(tg) => if !seq_starts_with(tg, "nrf_crypto_".spec_bytes()) {
            Seq::empty()
        } else {
            match call_args(t, c) {
                None => Seq::empty(),
                Some(args) => match flash_arg(src, t, args, names) {
                    Some(x) => seq![
                        finding(
                            RuleId::Crypto004,
                            node_span_of(ctx.path@, t[c], ctx.ls()),
                            "Flash-resident or const buffer '"@ + chars_of(x) + "' passed directly to "@
                                + chars_of(tg) + "()."@,
                            "CryptoCell DMA expects RAM-backed buffers."@,
                            "Copy the input into a mutable RAM buffer before calling nrf_crypto."@,
                        ),
                    ],
                    None => Seq::empty(),
                },
            }
        },
    }
}

/// Findings of [`flash_at`] over the given calls, in order.
pub open spec fn flash_over(ctx: &FileContext, names: Seq<Seq<u8>>, cs: Seq<usize>) -> Seq<DiagnosticView>
    decreases cs.len(),
{
    if cs.len() == 0 {
        Seq::empty()
    } else {
        flash_over(ctx, names, cs.drop_last()) + flash_at(ctx, names, cs.last() as int)
    }
}

/// Const or flash buffers handed to nRF crypto (`check_flash_buf_to_nrf_crypto`).
pub open spec fn flash_findings(ctx: &FileContext) -> Seq<DiagnosticView> {
    if !nrf_platform(ctx) {
        Seq::empty()
    } else {
        flash_over(ctx, const_names(ctx), all_calls(ctx))
    }
}

/// First call among `cs` whose target starts with a hardware crypto prefix.
pub open spec fn first_hw_call(src: Seq<u8>, t: Seq<NodeView>, cs: Seq<usize>) -> Option<(usize, Seq<u8>)>
    decreases cs.len(),
{
    if cs.len() == 0 {
        None
    } else {
        match call_target(src, t, cs[0] as int) {
            Some(tg) => if has_hw_prefix(tg) {
                Some((cs[0], tg))
            } else {
                first_hw_call(src, t, cs.subrange(1, cs.len() as int))
            },
            None => first_hw_call(src, t, cs.subrange(1, cs.len() as int)),
        }
    }
}

/// A hardware crypto call in a function body with no visible lock.
pub open spec fn mutex_at(ctx: &FileContext, f: int) -> Seq<DiagnosticView> {
    let t = ctx.tree@;
    let src = ctx.source@;
    match child_by_field(t, f, "body".spec_bytes()) {
        None => Seq::empty(),
        Some(b) => match node_text(src, t, b as int) {
            None => Seq::empty(),
            Some(bt) => if has_mutex_marker(bt) {
                Seq::empty()
            } else {
                match first_hw_call(src, t, subtree_of_kind(t, b as int, "call_expression".spec_bytes())) {
                    Some((c, tg)) => seq![
                        finding(
                            RuleId::Crypto005,
                            node_span_of(ctx.path@, t[c as int], ctx.ls()),
                            "Hardware crypto call '"@ + chars_of(tg)
                                + "()' without visible mutex acquire in function."@,
                            "Crypto peripherals should be accessed under a visible synchronization primitive."@,
                            "Add k_mutex_lock(), xSemaphoreTake(), or the project-local crypto lock before the hardware call."@,
                        ),
                    ],
                    None => Seq::empty(),
                }
            },
        },
    }
}

/// Findings of [`mutex_at`] over the given functions, in order.
pub open spec fn mutex_over(ctx: &FileContext, fs: Seq<usize>) -> Seq<DiagnosticView>
    decreases fs.len(),
{
    if fs.len() == 0 {
        Seq::empty()
    } else {
        mutex_over(ctx, fs.drop_last()) + mutex_at(ctx, fs.last() as int)
    }
}

/// A call target that reaches crypto hardware from an interrupt handler.
pub open spec fn irq_crypto_target(tg: Seq<u8>) -> bool {
    seq_starts_with(tg, "nrf_crypto_".spec_bytes()) || seq_starts_with(tg, "nrf_cc3xx_".spec_bytes())
        || seq_starts_with(tg, "esp_aes_".spec_bytes())
}

/// Crypto calls among `cs` inside the handler `name`.
pub open spec fn irq_calls(ctx: &FileContext, name: Seq<u8>, cs: Seq<usize>) -> Seq<DiagnosticView>
    decreases cs.len(),
{
    if cs.len() == 0 {
        Seq::empty()
    } else {
        let c = cs.last() as int;
        irq_calls(ctx, name, cs.drop_last()) + match call_target(ctx.source@, ctx.tree@, c) {
            Some(tg) => if irq_crypto_target(tg) {
                seq![
                    finding(
                        RuleId::Crypto008,
                        node_span_of(ctx.path@, ctx.tree@[c], ctx.ls()),
                        "Crypto call '"@ + chars_of(tg) + "()' found inside interrupt handler '"@
                            + chars_of(name) + "'."@,
                        "ISR paths should defer slow or locking crypto work to thread context."@,
                        "Queue the work to a task or worker thread instead of running crypto in the ISR."@,
                    ),
                ]
            } else {
                Seq::empty()
            },
            None => Seq::empty(),
        }
    }
}

/// A declarator that names an interrupt handler.
pub open spec fn is_handler_name(name: Seq<u8>) -> bool {
    let l = seq_lower(name);
    seq_contains(l, "irq".spec_bytes()) || seq_contains(l, "isr".spec_bytes()) || seq_contains(
        l,
        "handler".spec_bytes(),
    )
}

/// Crypto calls inside one function definition that is an interrupt handler.
pub open spec fn irq_at(ctx: &FileContext, f: int) -> Seq<DiagnosticView> {
    let t = ctx.tree@;
    let src = ctx.source@;
    match child_by_field(t, f, "declarator".spec_bytes()) {
        None => Seq::empty(),
        Some(d) => match node_text(src, t, d as int) {
            None => Seq::empty(),
            Some(name) => if !is_handler_name(name) {
                Seq::empty()
            } else {
                match child_by_field(t, f, "body".spec_bytes()) {
                    None => Seq::empty(),
                    Some(b) => irq_calls(
                        ctx,
                        name,
                        subtree_of_kind(t, b as int, "call_expression".spec_bytes()),
                    ),
                }
            },
        },
    }
}

/// Findings of [`irq_at`] over the given functions, in order.
pub open spec fn irq_over(ctx: &FileContext, fs: Seq<usize>) -> Seq<DiagnosticView>
    decreases fs.len(),
{
    if fs.len() == 0 {
        Seq::empty()
    } else {
        irq_over(ctx, fs.drop_last()) + irq_at(ctx, fs.last() as int)
    }
}

fn memset_one(ctx: &FileContext, c: usize, out: &mut Vec<Diagnostic>)
    requires
        ctx.wf(),
        c < ctx.tree@.len(),
    ensures
        diags_view(final(out)@) == diags_view(old(out)@) + memset_at(ctx, c as int),
{
    let ghost start = diags_view(out@);
    let tg = call_target_exec(ctx, c);
    let is_memset = match &tg {
        Some(v) => bytes_eq(v.as_slice(), "memset".as_bytes()),
        None => false,
    };
    if !is_memset {
        assert(diags_view(out@) =~= start + memset_at(ctx, c as int));
        return;
    }
    let args = match call_args_exec(ctx, c) {
        Some(a) => a,
        None => {
            assert(diags_view(out@) =~= start + memset_at(ctx, c as int));
            return;
        },
    };
    if args.len() < 2 {
        assert(diags_view(out@) =~= start + memset_at(ctx, c as int));
        return;
    }
    let b = ctx.tree.text(ctx.source.as_slice(), args[0]);
    let v = ctx.tree.text(ctx.source.as_slice(), args[1]);
    match (b, v) {
        (Some(b), Some(v)) => {
            let vt = trim(v.as_slice());
            if bytes_eq(vt.as_slice(), "0".as_bytes()) && mentions_crypto_exec(b.as_slice()) {
                let name = text_of(b.as_slice());
                emit(
                    out,
                    RuleId::Crypto001,
                    node_to_span(&ctx.tree, c, ctx.path.as_str(), &ctx.lines),
                    concat3("memset() used to zero crypto buffer '", name.as_str(), "'."),
                    "memset-based zeroization can be optimized away by the compiler.",
                    "Use mbedtls_platform_zeroize(), explicit_bzero(), or another non-elidable wipe primitive.".to_owned(),
                );
            } else {
                assert(diags_view(out@) =~= start + memset_at(ctx, c as int));
            }
        },
        _ => {
            assert(diags_view(out@) =~= start + memset_at(ctx, c as int));
        },
    }
}

/// Checks `memset` zeroization of crypto buffers (`check_memset_zeroization`).
pub fn check_memset_zeroization(ctx: &FileContext, out: &mut Vec<Diagnostic>)
    requires
        ctx.wf(),
    ensures
        diags_view(final(out)@) == diags_view(old(out)@) + memset_over(ctx, all_calls(ctx)),
{
    let ghost start = diags_view(out@);
    let cs = ctx.tree.collect_kind(0, "call_expression".as_bytes());
    let mut k: usize = 0;
    while k < cs.len()
        invariant
            ctx.wf(),
            cs@ == all_calls(ctx),
            forall|m: int| 0 <= m < cs@.len() ==> 0 <= #[trigger] cs@[m] < ctx.tree@[0].end,
            k <= cs@.len(),
            diags_view(out@) == start + memset_over(ctx, cs@.subrange(0, k as int)),
        decreases cs@.len() - k,
    {
        memset_one(ctx, cs[k], out);
        assert(cs@.subrange(0, k + 1).drop_last() =~= cs@.subrange(0, k as int));
        k = k + 1;
    }
    assert(cs@.subrange(0, cs@.len() as int) =~= cs@);
}

fn first_secret_arg_exec(ctx: &FileContext, args: &Vec<usize>) -> (r: Option<Vec<u8>>)
    requires
        ctx.wf(),
        forall|k: int| 0 <= k < args@.len() ==> #[trigger] args@[k] < ctx.tree@.len(),
    ensures
        r matches Some(v) ==> first_secret_arg(ctx.source@, ctx.tree@, args@) == Some(v@),
        r is None ==> first_secret_arg(ctx.source@, ctx.tree@, args@) is None,
{
    let mut k: usize = 0;
    assert(args@.subrange(0, args@.len() as int) =~= args@);
    while k < args.len()
        invariant
            ctx.wf(),
            forall|m: int| 0 <= m < args@.len() ==> #[trigger] args@[m] < ctx.tree@.len(),
            k <= args@.len(),
            first_secret_arg(ctx.source@, ctx.tree@, args@) == first_secret_arg(
                ctx.source@,
                ctx.tree@,
                args@.subrange(k as int, args@.len() as int),
            ),
        decreases args@.len() - k,
    {
        let ghost rest = args@.subrange(k as int, args@.len() as int);
        assert(rest.subrange(1, rest.len() as int) =~= args@.subrange(k + 1, args@.len() as int));
        assert(rest[0] == args@[k as int]);
        match ctx.tree.text(ctx.source.as_slice(), args[k]) {
            None => {},
            Some(x) => {
                let tr = trim(x.as_slice());
                if starts_with(tr.as_slice(), "\"".as_bytes()) || starts_with(tr.as_slice(), "'".as_bytes()) {
                } else if !mentions_crypto_exec(x.as_slice()) {
                } else {
                    return Some(x);
                }
            },
        }
        k = k + 1;
    }
    None
}

fn log_one(ctx: &FileContext, c: usize, out: &mut Vec<Diagnostic>)
    requires
        ctx.wf(),
        c < ctx.tree@.len(),
    ensures
        diags_view(final(out)@) == diags_view(old(out)@) + log_at(ctx, c as int),
{
    let ghost start = diags_view(out@);
    let tg = match call_target_exec(ctx, c) {
        Some(t) => t,
        None => {
            assert(diags_view(out@) =~= start + log_at(ctx, c as int));
            return;
        },
    };
    if !is_log_function_exec(tg.as_slice()) {
        assert(diags_view(out@) =~= start + log_at(ctx, c as int));
        return;
    }
    let args = match call_args_exec(ctx, c) {
        Some(a) => a,
        None => {
            assert(diags_view(out@) =~= start + log_at(ctx, c as int));
            return;
        },
    };
    match first_secret_arg_exec(ctx, &args) {
        Some(x) => {
            let xs = text_of(x.as_slice());
            let ts = text_of(tg.as_slice());
            let head = concat3("Key material '", xs.as_str(), "' passed to log function '");
            emit(
                out,
                RuleId::Crypto002,
                node_to_span(&ctx.tree, c, ctx.path.as_str(), &ctx.lines),
                concat3(head.as_str(), ts.as_str(), "()'."),
                "Logs should report status, not secrets or secret-derived values.",
                "Remove the secret-bearing argument from the log call.".to_owned(),
            );
        },
        None => {
            assert(diags_view(out@) =~= start + log_at(ctx, c as int));
        },
    }
}

/// Checks log calls for key material (`check_key_in_log`).
pub fn check_key_in_log(ctx: &FileContext, out: &mut Vec<Diagnostic>)
    requires
        ctx.wf(),
    ensures
        diags_view(final(out)@) == diags_view(old(out)@) + log_over(ctx, all_calls(ctx)),
{
    let ghost start = diags_view(out@);
    let cs = ctx.tree.collect_kind(0, "call_expression".as_bytes());
    let mut k: usize = 0;
    while k < cs.len()
        invariant
            ctx.wf(),
            cs@ == all_calls(ctx),
            forall|m: int| 0 <= m < cs@.len() ==> 0 <= #[trigger] cs@[m] < ctx.tree@[0].end,
            k <= cs@.len(),
            diags_view(out@) == start + log_over(ctx, cs@.subrange(0, k as int)),
        decreases cs@.len() - k,
    {
        log_one(ctx, cs[k], out);
        assert(cs@.subrange(0, k + 1).drop_last() =~= cs@.subrange(0, k as int));
        k = k + 1;
    }
    assert(cs@.subrange(0, cs@.len() as int) =~= cs@);
}

fn const_names_exec(ctx: &FileContext) -> (r: Vec<Vec<u8>>)
    requires
        ctx.wf(),
    ensures
        vv(r@) == const_names(ctx),
{
    let ds = ctx.tree.collect_kind(0, "declaration".as_bytes());
    let mut out: Vec<Vec<u8>> = Vec::new();
    let mut k: usize = 0;
    while k < ds.len()
        invariant
            ctx.wf(),
            ds@ == subtree_of_kind(ctx.tree@, 0, "declaration".spec_bytes()),
            forall|m: int| 0 <= m < ds@.len() ==> 0 <= #[trigger] ds@[m] < ctx.tree@[0].end,
            k <= ds@.len(),
            vv(out@) == const_names_over(ctx.source@, ctx.tree@, ds@.subrange(0, k as int)),
        decreases ds@.len() - k,
    {
        let d = ds[k];
        let ghost prev = vv(out@);
        assert(ds@.subrange(0, k + 1).drop_last() =~= ds@.subrange(0, k as int));
        assert(ds@.subrange(0, k + 1).last() == d);
        match ctx.tree.text(ctx.source.as_slice(), d) {
            Some(x) => {
                if contains(x.as_slice(), "const ".as_bytes()) {
                    assert(node_wf(ctx.tree@, d as int));
                    let ids = ctx.tree.collect_kind(d, "identifier".as_bytes());
                    if ids.len() > 0 {
                        let last = ids[ids.len() - 1];
                        match ctx.tree.text(ctx.source.as_slice(), last) {
                            Some(n) => {
                                out.push(n);
                                assert(vv(out@) =~= prev.push(n@));
                            },
                            None => {},
                        }
                    }
                }
            },
            None => {},
        }
        k = k + 1;
    }
    assert(ds@.subrange(0, ds@.len() as int) =~= ds@);
    out
}

fn has_name(names: &Vec<Vec<u8>>, g: &[u8]) -> (r: bool)
    ensures
        r == vv(names@).contains(g@),
{
    let ghost d = vv(names@);
    let mut k: usize = 0;
    while k < names.len()
        invariant
            d == vv(names@),
            k <= names@.len(),
            forall|m: int| 0 <= m < k ==> d[m] != g@,
        decreases names@.len() - k,
    {
        if bytes_eq(names[k].as_slice(), g) {
            assert(d[k as int] == g@);
            return true;
        }
        k = k + 1;
    }
    false
}

fn flash_arg_exec(ctx: &FileContext, args: &Vec<usize>, names: &Vec<Vec<u8>>) -> (r: Option<Vec<u8>>)
    requires
        ctx.wf(),
        forall|k: int| 0 <= k < args@.len() ==> #[trigger] args@[k] < ctx.tree@.len(),
    ensures
        r matches Some(v) ==> flash_arg(ctx.source@, ctx.tree@, args@, vv(names@)) == Some(v@),
        r is None ==> flash_arg(ctx.source@, ctx.tree@, args@, vv(names@)) is None,
{
    let mut k: usize = 0;
    assert(args@.subrange(0, args@.len() as int) =~= args@);
    while k < args.len()
        invariant
            ctx.wf(),
            forall|m: int| 0 <= m < args@.len() ==> #[trigger] args@[m] < ctx.tree@.len(),
            k <= args@.len(),
            flash_arg(ctx.source@, ctx.tree@, args@, vv(names@)) == flash_arg(
                ctx.source@,
                ctx.tree@,
                args@.subrange(k as int, args@.len() as int),
                vv(names@),
            ),
        decreases args@.len() - k,
    {
        let ghost rest = args@.subrange(k as int, args@.len() as int);
        assert(rest.subrange(1, rest.len() as int) =~= args@.subrange(k + 1, args@.len() as int));
        assert(rest[0] == args@[k as int]);
        match ctx.tree.text(ctx.source.as_slice(), args[k]) {
            Some(x) => {
                if starts_with(x.as_slice(), "\"".as_bytes()) || has_name(names, x.as_slice()) {
                    return Some(x);
                }
            },
            None => {},
        }
        k = k + 1;
    }
    None
}

fn flash_one(ctx: &FileContext, names: &Vec<Vec<u8>>, c: usize, out: &mut Vec<Diagnostic>)
    requires
        ctx.wf(),
        c < ctx.tree@.len(),
    ensures
        diags_view(final(out)@) == diags_view(old(out)@) + flash_at(ctx, vv(names@), c as int),
{
    let ghost start = diags_view(out@);
    let tg = match call_target_exec(ctx, c) {
        Some(t) => t,
        None => {
            assert(diags_view(out@) =~= start + flash_at(ctx, vv(names@), c as int));
            return;
        },
    };
    if !starts_with(tg.as_slice(), "nrf_crypto_".as_bytes()) {
        assert(diags_view(out@) =~= start + flash_at(ctx, vv(names@), c as int));
        return;
    }
    let args = match call_args_exec(ctx, c) {
        Some(a) => a,
        None => {
            assert(diags_view(out@) =~= start + flash_at(ctx, vv(names@), c as int));
            return;
        },
    };
    match flash_arg_exec(ctx, &args, names) {
        Some(x) => {
            let xs = text_of(x.as_slice());
            let ts = text_of(tg.as_slice());
            let head = concat3("Flash-resident or const buffer '", xs.as_str(), "' passed directly to ");
            emit(
                out,
                RuleId::Crypto004,
                node_to_span(&ctx.tree, c, ctx.path.as_str(), &ctx.lines),
                concat3(head.as_str(), ts.as_str(), "()."),
                "CryptoCell DMA expects RAM-backed buffers.",
                "Copy the input into a mutable RAM buffer before calling nrf_crypto.".to_owned(),
            );
        },
        None => {
            assert(diags_view(out@) =~= start + flash_at(ctx, vv(names@), c as int));
        },
    }
}

/// Checks for const or flash buffers handed to nRF crypto.
pub fn check_flash_buf_to_nrf_crypto(ctx: &FileContext, out: &mut Vec<Diagnostic>)
    requires
        ctx.wf(),
    ensures
        diags_view(final(out)@) == diags_view(old(out)@) + flash_findings(ctx),
{
    let ghost start = diags_view(out@);
    if !nrf_platform_exec(ctx) {
        assert(diags_view(out@) =~= start + flash_findings(ctx));
        return;
    }
    let names = const_names_exec(ctx);
    let cs = ctx.tree.collect_kind(0, "call_expression".as_bytes());
    let mut k: usize = 0;
    while k < cs.len()
        invariant
            ctx.wf(),
            nrf_platform(ctx),
            vv(names@) == const_names(ctx),
            cs@ == all_calls(ctx),
            forall|m: int| 0 <= m < cs@.len() ==> 0 <= #[trigger] cs@[m] < ctx.tree@[0].end,
            k <= cs@.len(),
            diags_view(out@) == start + flash_over(ctx, vv(names@), cs@.subrange(0, k as int)),
        decreases cs@.len() - k,
    {
        flash_one(ctx, &names, cs[k], out);
        assert(cs@.subrange(0, k + 1).drop_last() =~= cs@.subrange(0, k as int));
        k = k + 1;
    }
    assert(cs@.subrange(0, cs@.len() as int) =~= cs@);
}

fn first_hw_call_exec(ctx: &FileContext, cs: &Vec<usize>) -> (r: Option<(usize, Vec<u8>)>)
    requires
        ctx.wf(),
        forall|k: int| 0 <= k < cs@.len() ==> #[trigger] cs@[k] < ctx.tree@.len(),
    ensures
        r matches Some((c, v)) ==> first_hw_call(ctx.source@, ctx.tree@, cs@) == Some((c, v@)) && c
            < ctx.tree@.len(),
        r is None ==> first_hw_call(ctx.source@, ctx.tree@, cs@) is None,
{
    let mut k: usize = 0;
    assert(cs@.subrange(0, cs@.len() as int) =~= cs@);
    while k < cs.len()
        invariant
            ctx.wf(),
            forall|m: int| 0 <= m < cs@.len() ==> #[trigger] cs@[m] < ctx.tree@.len(),
            k <= cs@.len(),
            first_hw_call(ctx.source@, ctx.tree@, cs@) == first_hw_call(
                ctx.source@,
                ctx.tree@,
                cs@.subrange(k as int, cs@.len() as int),
            ),
        decreases cs@.len() - k,
    {
        let ghost rest = cs@.subrange(k as int, cs@.len() as int);
        assert(rest.subrange(1, rest.len() as int) =~= cs@.subrange(k + 1, cs@.len() as int));
        assert(rest[0] == cs@[k as int]);
        match call_target_exec(ctx, cs[k]) {
            Some(tg) => {
                if has_hw_prefix_exec(tg.as_slice()) {
                    return Some((cs[k], tg));
                }
            },
            None => {},
        }
        k = k + 1;
    }
    None
}

fn mutex_one(ctx: &FileContext, f: usize, out: &mut Vec<Diagnostic>)
    requires
        ctx.wf(),
        f < ctx.tree@.len(),
    ensures
        diags_view(final(out)@) == diags_view(old(out)@) + mutex_at(ctx, f as int),
{
    let ghost start = diags_view(out@);
    assert(node_wf(ctx.tree@, f as int));
    let b = match ctx.tree.child_by_field(f, "body".as_bytes()) {
        Some(b) => b,
        None => {
            assert(diags_view(out@) =~= start + mutex_at(ctx, f as int));
            return;
        },
    };
    let bt = match ctx.tree.text(ctx.source.as_slice(), b) {
        Some(x) => x,
        None => {
            assert(diags_view(out@) =~= start + mutex_at(ctx, f as int));
            return;
        },
    };
    if has_mutex_marker_exec(bt.as_slice()) {
        assert(diags_view(out@) =~= start + mutex_at(ctx, f as int));
        return;
    }
    assert(node_wf(ctx.tree@, b as int));
    let cs = ctx.tree.collect_kind(b, "call_expression".as_bytes());
    match first_hw_call_exec(ctx, &cs) {
        Some((c, tg)) => {
            let ts = text_of(tg.as_slice());
            emit(
                out,
                RuleId::Crypto005,
                node_to_span(&ctx.tree, c, ctx.path.as_str(), &ctx.lines),
                concat3("Hardware crypto call '", ts.as_str(), "()' without visible mutex acquire in function."),
                "Crypto peripherals should be accessed under a visible synchronization primitive.",
                "Add k_mutex_lock(), xSemaphoreTake(), or the project-local crypto lock before the hardware call.".to_owned(),
            );
        },
        None => {
            assert(diags_view(out@) =~= start + mutex_at(ctx, f as int));
        },
    }
}

/// Checks hardware crypto calls for a visible lock (`check_mutex_before_crypto`).
pub fn check_mutex_before_crypto(ctx: &FileContext, out: &mut Vec<Diagnostic>)
    requires
        ctx.wf(),
    ensures
        diags_view(final(out)@) == diags_view(old(out)@) + mutex_over(ctx, all_functions(ctx)),
{
    let ghost start = diags_view(out@);
    let fs = ctx.tree.collect_kind(0, "function_definition".as_bytes());
    let mut k: usize = 0;
    while k < fs.len()
        invariant
            ctx.wf(),
            fs@ == all_functions(ctx),
            forall|m: int| 0 <= m < fs@.len() ==> 0 <= #[trigger] fs@[m] < ctx.tree@[0].end,
            k <= fs@.len(),
            diags_view(out@) == start + mutex_over(ctx, fs@.subrange(0, k as int)),
        decreases fs@.len() - k,
    {
        mutex_one(ctx, fs[k], out);
        assert(fs@.subrange(0, k + 1).drop_last() =~= fs@.subrange(0, k as int));
        k = k + 1;
    }
    assert(fs@.subrange(0, fs@.len() as int) =~= fs@);
}

fn irq_one(ctx: &FileContext, f: usize, out: &mut Vec<Diagnostic>)
    requires
        ctx.wf(),
        f < ctx.tree@.len(),
    ensures
        diags_view(final(out)@) == diags_view(old(out)@) + irq_at(ctx, f as int),
{
    let ghost start = diags_view(out@);
    assert(node_wf(ctx.tree@, f as int));
    let d = match ctx.tree.child_by_field(f, "declarator".as_bytes()) {
        Some(d) => d,
        None => {
            assert(diags_view(out@) =~= start + irq_at(ctx, f as int));
            return;
        },
    };
    let name = match ctx.tree.text(ctx.source.as_slice(), d) {
        Some(x) => x,
        None => {
            assert(diags_view(out@) =~= start + irq_at(ctx, f as int));
            return;
        },
    };
    let l = to_lower(name.as_slice());
    if !(contains(l.as_slice(), "irq".as_bytes()) || contains(l.as_slice(), "isr".as_bytes())
        || contains(l.as_slice(), "handler".as_bytes())) {
        assert(diags_view(out@) =~= start + irq_at(ctx, f as int));
        return;
    }
    let b = match ctx.tree.child_by_field(f, "body".as_bytes()) {
        Some(b) => b,
        None => {
            assert(diags_view(out@) =~= start + irq_at(ctx, f as int));
            return;
        },
    };
    assert(node_wf(ctx.tree@, b as int));
    let cs = ctx.tree.collect_kind(b, "call_expression".as_bytes());
    let ns = text_of(name.as_slice());
    let mut k: usize = 0;
    while k < cs.len()
        invariant
            ctx.wf(),
            ns@ == chars_of(name@),
            forall|m: int| 0 <= m < cs@.len() ==> #[trigger] cs@[m] < ctx.tree@.len(),
            k <= cs@.len(),
            diags_view(out@) == start + irq_calls(ctx, name@, cs@.subrange(0, k as int)),
        decreases cs@.len() - k,
    {
        let c = cs[k];
        let ghost sub = cs@.subrange(0, k + 1);
        assert(sub.drop_last() =~= cs@.subrange(0, k as int));
        assert(sub.last() == c);
        match call_target_exec(ctx, c) {
            Some(tg) => {
                let ts = tg.as_slice();
                if starts_with(ts, "nrf_crypto_".as_bytes()) || starts_with(ts, "nrf_cc3xx_".as_bytes())
                    || starts_with(ts, "esp_aes_".as_bytes()) {
                    let tgs = text_of(ts);
                    let head = concat3("Crypto call '", tgs.as_str(), "()' found inside interrupt handler '");
                    emit(
                        out,
                        RuleId::Crypto008,
                        node_to_span(&ctx.tree, c, ctx.path.as_str(), &ctx.lines),
                        concat3(head.as_str(), ns.as_str(), "'."),
                        "ISR paths should defer slow or locking crypto work to thread context.",
                        "Queue the work to a task or worker thread instead of running crypto in the ISR.".to_owned(),
                    );
                }
            },
            None => {},
        }
        k = k + 1;
        assert(diags_view(out@) =~= start + irq_calls(ctx, name@, cs@.subrange(0, k as int)));
    }
    assert(cs@.subrange(0, cs@.len() as int) =~= cs@);
}

/// Checks interrupt handlers for crypto calls (`check_interrupt_crypto`).
pub fn check_interrupt_crypto(ctx: &FileContext, out: &mut Vec<Diagnostic>)
    requires
        ctx.wf(),
    ensures
        diags_view(final(out)@) == diags_view(old(out)@) + irq_over(ctx, all_functions(ctx)),
{
    let ghost start = diags_view(out@);
    let fs = ctx.tree.collect_kind(0, "function_definition".as_bytes());
    let mut k: usize = 0;
    while k < fs.len()
        invariant
            ctx.wf(),
            fs@ == all_functions(ctx),
            forall|m: int| 0 <= m < fs@.len() ==> 0 <= #[trigger] fs@[m] < ctx.tree@[0].end,
            k <= fs@.len(),
            diags_view(out@) == start + irq_over(ctx, fs@.subrange(0, k as int)),
        decreases fs@.len() - k,
    {
        irq_one(ctx, fs[k], out);
        assert(fs@.subrange(0, k + 1).drop_last() =~= fs@.subrange(0, k as int));
        k = k + 1;
    }
    assert(fs@.subrange(0, fs@.len() as int) =~= fs@);
}

/// Argument node `a` carries key material: its text is not a string or
/// character literal and mentions a crypto buffer word.
pub open spec fn secret_argument(src: Seq<u8>, t: Seq<NodeView>, a: int) -> bool {
    match node_text(src, t, a) {
        Some(x) => !seq_starts_with(seq_trim(x), "\"".spec_bytes()) && !seq_starts_with(
            seq_trim(x),
            "'".spec_bytes(),
        ) && mentions_crypto(x),
        None => false,
    }
}

/// The first argument carrying key material is found, whatever arguments
/// without it come before; with none, nothing is.
pub proof fn lemma_first_secret_arg(src: Seq<u8>, t: Seq<NodeView>, args: Seq<usize>)
    ensures
        (forall|j: int| 0 <= j < args.len() ==> !#[trigger] secret_argument(src, t, args[j] as int))
            ==> first_secret_arg(src, t, args) is None,
        forall|j: int|
            0 <= j < args.len() && #[trigger] secret_argument(src, t, args[j] as int) && (forall|i: int|
                0 <= i < j ==> !secret_argument(src, t, args[i] as int)) ==> first_secret_arg(src, t, args)
                == node_text(src, t, args[j] as int),
    decreases args.len(),
{
    if args.len() > 0 {
        let rest = args.subrange(1, args.len() as int);
        lemma_first_secret_arg(src, t, rest);
        assert forall|j: int| 0 <= j < rest.len() implies rest[j] == args[j + 1] by {}
        if forall|j: int| 0 <= j < args.len() ==> !#[trigger] secret_argument(src, t, args[j] as int) {
            assert(!secret_argument(src, t, args[0] as int));
            assert forall|j: int| 0 <= j < rest.len() implies !#[trigger] secret_argument(src, t, rest[j] as int) by {
                assert(rest[j] == args[j + 1]);
            }
        }
        assert forall|j: int|
            0 <= j < args.len() && #[trigger] secret_argument(src, t, args[j] as int) && (forall|i: int|
                0 <= i < j ==> !secret_argument(src, t, args[i] as int)) implies first_secret_arg(src, t, args)
                == node_text(src, t, args[j] as int) by {
            if j > 0 {
                assert(!secret_argument(src, t, args[0] as int));
                assert(rest[j - 1] == args[j]);
                assert forall|i: int| 0 <= i < j - 1 implies !secret_argument(src, t, rest[i] as int) by {
                    assert(rest[i] == args[i + 1]);
                }
            }
        }
    }
}

/// A call to a log function whose arguments carry key material is reported
/// once, naming the first such argument and the function.
pub proof fn lemma_key_in_log(ctx: &FileContext, c: int, j: int)
    requires
        call_target(ctx.source@, ctx.tree@, c) matches Some(tg) && is_log_function(tg),
        call_args(ctx.tree@, c) matches Some(args) && 0 <= j < args.len() && secret_argument(
            ctx.source@,
            ctx.tree@,
            args[j] as int,
        ) && forall|i: int| 0 <= i < j ==> !#[trigger] secret_argument(ctx.source@, ctx.tree@, args[i] as int),
    ensures
        ({
            let tg = call_target(ctx.source@, ctx.tree@, c)->0;
            let x = node_text(ctx.source@, ctx.tree@, call_args(ctx.tree@, c)->0[j] as int)->0;
            &&& log_at(ctx, c).len() == 1
            &&& log_at(ctx, c)[0].rule == rule_view(RuleId::Crypto002)
            &&& log_at(ctx, c)[0].message == "Key material '"@ + chars_of(x) + "' passed to log function '"@
                + chars_of(tg) + "()'."@
        }),
{
    let args = call_args(ctx.tree@, c)->0;
    lemma_first_secret_arg(ctx.source@, ctx.tree@, args);
}

/// Every finding of [`log_at`] on a call among `cs` is among the findings of
/// [`log_over`] on `cs`.
pub proof fn lemma_log_over_has(ctx: &FileContext, cs: Seq<usize>, j: int, k: int)
    requires
        0 <= j < cs.len(),
        0 <= k < log_at(ctx, cs[j] as int).len(),
    ensures
        exists|m: int| 0 <= m < log_over(ctx, cs).len() && log_over(ctx, cs)[m] == log_at(ctx, cs[j] as int)[k],
    decreases cs.len(),
{
    let init = cs.drop_last();
    if j < cs.len() - 1 {
        assert(init[j] == cs[j]);
        lemma_log_over_has(ctx, init, j, k);
        let m = choose|m: int| 0 <= m < log_over(ctx, init).len() && log_over(ctx, init)[m] == log_at(ctx, init[j] as int)[k];
        assert(log_over(ctx, cs)[m] == log_over(ctx, init)[m]);
    } else {
        let m = log_over(ctx, init).len() + k;
        assert(log_over(ctx, cs)[m] == log_at(ctx, cs[j] as int)[k]);
    }
}

} // verus!
