//! Crypto checks on public API declarations and on CC312 register access.

use vstd::prelude::*;
use vstd::string::StringSliceAdditionalSpecFns;

use super::{ident_in, ident_in_exec};
use crate::ast_pass::decls::name_or;
use crate::ast_pass::docs::{block_has, block_has_exec, doc_block_above, doc_block_above_exec, tag_content, tag_content_exec};
use crate::context::FileContext;
use crate::diagnostic::{chars_of, concat3, emit, finding, line_span, line_span_of, node_span_of, node_to_span, text_of};
use crate::rules::RuleId;
use crate::syntax::{node_text, node_wf, subtree_of_kind};
use crate::text::{contains, seq_contains, seq_lower, seq_starts_with, seq_trim, starts_with, to_lower, trim};
use crate::types::{diags_view, Diagnostic, DiagnosticView, FileRole, PlatformHint};

verus! {

/// Parameter text that passes raw key bytes: a `uint8_t` pointer named for a
/// key and not a handle.
pub open spec fn raw_key_param(x: Seq<u8>) -> bool {
    let l = seq_lower(x);
    seq_contains(l, "uint8_t".spec_bytes()) && seq_contains(l, "*".spec_bytes()) && seq_contains(
        l,
        "key".spec_bytes(),
    ) && !seq_contains(l, "handle".spec_bytes())
}

/// Raw-key parameters among `ps`, for a function whose brief is `brief`.
pub open spec fn raw_params(ctx: &FileContext, brief: Seq<u8>, ps: Seq<usize>) -> Seq<DiagnosticView>
    decreases ps.len(),
{
    if ps.len() == 0 {
        Seq::empty()
    } else {
        let t = ctx.tree@;
        let p = ps.last() as int;
        raw_params(ctx, brief, ps.drop_last()) + match node_text(ctx.source@, t, p) {
            Some(x) => if raw_key_param(x) {
                let name = name_or(ident_in(ctx.source@, t, p, t[p].end as int), "key"@);
                seq![
                    finding(
                        RuleId::Crypto009,
                        node_span_of(ctx.path@, t[p], ctx.ls()),
                        "Public API parameter '"@ + name + "' exposes raw key bytes."@,
                        "The function brief is \""@ + chars_of(brief) + "\"."@,
                        "Expose a key handle or opaque key reference instead of raw key bytes."@,
                    ),
                ]
            } else {
                Seq::empty()
            },
            None => Seq::empty(),
        }
    }
}

/// Raw-key parameters of one documented function declarator.
pub open spec fn raw_key_at(ctx: &FileContext, fd: int) -> Seq<DiagnosticView> {
    let t = ctx.tree@;
    let lb = ctx.lb();
    match t[fd].parent {
        None => Seq::empty(),
        Some(p) => if t[p as int].kind != "function_declaration".spec_bytes() && t[p as int].kind
            != "declaration".spec_bytes() {
            Seq::empty()
        } else {
            match doc_block_above(lb, t[p as int].start_row as int, 6) {
                None => Seq::empty(),
                Some((s, e)) => if !block_has(lb, s, e, "@brief".spec_bytes()) {
                    Seq::empty()
                } else {
                    raw_params(
                        ctx,
                        tag_content(lb, s, e, "@brief".spec_bytes()),
                        subtree_of_kind(t, fd, "parameter_declaration".spec_bytes()),
                    )
                },
            }
        },
    }
}

/// Findings of [`raw_key_at`] over the given declarators, in order.
pub open spec fn raw_key_over(ctx: &FileContext, fs: Seq<usize>) -> Seq<DiagnosticView>
    decreases fs.len(),
{
    if fs.len() == 0 {
        Seq::empty()
    } else {
        raw_key_over(ctx, fs.drop_last()) + raw_key_at(ctx, fs.last() as int)
    }
}

/// Raw key bytes in documented public API declarations (`check_raw_key_in_api`).
pub open spec fn raw_key_findings(ctx: &FileContext) -> Seq<DiagnosticView> {
    if ctx.role != FileRole::PublicHeader {
        Seq::empty()
    } else {
        raw_key_over(ctx, subtree_of_kind(ctx.tree@, 0, "function_declarator".spec_bytes()))
    }
}

/// A code line that touches CC312 registers directly.
pub open spec fn cc312_line(l: Seq<u8>) -> bool {
    let t = seq_trim(l);
    !(seq_starts_with(t, "//".spec_bytes()) || seq_starts_with(t, "*".spec_bytes())) && (seq_contains(
        t,
        "CC312".spec_bytes(),
    ) || seq_contains(t, "NRF_CRYPTOCELL".spec_bytes())) && (seq_contains(t, "->".spec_bytes())
        || seq_contains(t, "[".spec_bytes()))
}

/// CC312 register access on lines `0..n`.
pub open spec fn cc312_over(lb: Seq<Seq<u8>>, n: int, file: Seq<char>, ls: Seq<Seq<char>>) -> Seq<DiagnosticView>
    decreases n,
{
    if n <= 0 {
        Seq::empty()
    } else {
        cc312_over(lb, n - 1, file, ls) + if cc312_line(lb[n - 1]) {
            seq![
                finding(
                    RuleId::Crypto006,
                    line_span_of(file, n as usize, ls),
                    "Direct CC312 register access found in non-secure source."@,
                    "CC312 access should go through the secure platform wrapper API."@,
                    "Use nrf_cc3xx_platform_* helpers instead of touching CC312 registers directly."@,
                ),
            ]
        } else {
            Seq::empty()
        }
    }
}

/// Direct CC312 register access on nRF5340 (`check_cc312_direct_register`).
pub open spec fn cc312_findings(ctx: &FileContext) -> Seq<DiagnosticView> {
    if ctx.platform != PlatformHint::Nrf5340 {
        Seq::empty()
    } else {
        cc312_over(ctx.lb(), ctx.lb().len() as int, ctx.path@, ctx.ls())
    }
}

fn raw_key_param_exec(x: &[u8]) -> (r: bool)
    ensures
        r == raw_key_param(x@),
{
    let l = to_lower(x);
    let s = l.as_slice();
    contains(s, "uint8_t".as_bytes()) && contains(s, "*".as_bytes()) && contains(s, "key".as_bytes())
        && !contains(s, "handle".as_bytes())
}

fn raw_key_one(ctx: &FileContext, fd: usize, out: &mut Vec<Diagnostic>)
    requires
        ctx.wf(),
        fd < ctx.tree@.len(),
    ensures
        diags_view(final(out)@) == diags_view(old(out)@) + raw_key_at(ctx, fd as int),
{
    let ghost start = diags_view(out@);
    assert(node_wf(ctx.tree@, fd as int));
    let p = match ctx.tree.nodes[fd].parent {
        Some(p) => p,
        None => {
            assert(diags_view(out@) =~= start + raw_key_at(ctx, fd as int));
            return;
        },
    };
    assert(0 < fd && p < fd);
    if !ctx.tree.is_kind(p, "function_declaration".as_bytes()) && !ctx.tree.is_kind(
        p,
        "declaration".as_bytes(),
    ) {
        assert(diags_view(out@) =~= start + raw_key_at(ctx, fd as int));
        return;
    }
    let (s, e) = match doc_block_above_exec(&ctx.line_bytes, ctx.tree.nodes[p].start_row, 6) {
        Some(b) => b,
        None => {
            assert(diags_view(out@) =~= start + raw_key_at(ctx, fd as int));
            return;
        },
    };
    if !block_has_exec(&ctx.line_bytes, s, e, "@brief".as_bytes()) {
        assert(diags_view(out@) =~= start + raw_key_at(ctx, fd as int));
        return;
    }
    let brief = tag_content_exec(&ctx.line_bytes, s, e, "@brief".as_bytes());
    let bs = text_of(brief.as_slice());
    let note = concat3("The function brief is \"", bs.as_str(), "\".");
    let ps = ctx.tree.collect_kind(fd, "parameter_declaration".as_bytes());
    let mut k: usize = 0;
    while k < ps.len()
        invariant
            ctx.wf(),
            note@ == "The function brief is \""@ + chars_of(brief@) + "\"."@,
            forall|m: int| 0 <= m < ps@.len() ==> fd <= #[trigger] ps@[m] < ctx.tree@[fd as int].end,
            ctx.tree@[fd as int].end <= ctx.tree@.len(),
            k <= ps@.len(),
            diags_view(out@) == start + raw_params(ctx, brief@, ps@.subrange(0, k as int)),
        decreases ps@.len() - k,
    {
        let q = ps[k];
        let ghost sub = ps@.subrange(0, k + 1);
        assert(sub.drop_last() =~= ps@.subrange(0, k as int));
        assert(sub.last() == q);
        match ctx.tree.text(ctx.source.as_slice(), q) {
            Some(x) => {
                if raw_key_param_exec(x.as_slice()) {
                    let name: String = match ident_in_exec(ctx, q) {
                        Some(n) => text_of(n.as_slice()),
                        None => "key".to_owned(),
                    };
                    emit(
                        out,
                        RuleId::Crypto009,
                        node_to_span(&ctx.tree, q, ctx.path.as_str(), &ctx.lines),
                        concat3("Public API parameter '", name.as_str(), "' exposes raw key bytes."),
                        note.as_str(),
                        "Expose a key handle or opaque key reference instead of raw key bytes.".to_owned(),
                    );
                }
            },
            None => {},
        }
        k = k + 1;
        assert(diags_view(out@) =~= start + raw_params(ctx, brief@, ps@.subrange(0, k as int)));
    }
    assert(ps@.subrange(0, ps@.len() as int) =~= ps@);
}

/// Checks documented public API declarations for raw key bytes.
pub fn check_raw_key_in_api(ctx: &FileContext, out: &mut Vec<Diagnostic>)
    requires
        ctx.wf(),
    ensures
        diags_view(final(out)@) == diags_view(old(out)@) + raw_key_findings(ctx),
{
    let ghost start = diags_view(out@);
    if ctx.role != FileRole::PublicHeader {
        assert(diags_view(out@) =~= start + raw_key_findings(ctx));
        return;
    }
    let fs = ctx.tree.collect_kind(0, "function_declarator".as_bytes());
    let mut k: usize = 0;
    while k < fs.len()
        invariant
            ctx.wf(),
            ctx.role == FileRole::PublicHeader,
            fs@ == subtree_of_kind(ctx.tree@, 0, "function_declarator".spec_bytes()),
            forall|m: int| 0 <= m < fs@.len() ==> 0 <= #[trigger] fs@[m] < ctx.tree@[0].end,
            k <= fs@.len(),
            diags_view(out@) == start + raw_key_over(ctx, fs@.subrange(0, k as int)),
        decreases fs@.len() - k,
    {
        raw_key_one(ctx, fs[k], out);
        assert(fs@.subrange(0, k + 1).drop_last() =~= fs@.subrange(0, k as int));
        k = k + 1;
    }
    assert(fs@.subrange(0, fs@.len() as int) =~= fs@);
}

/// Checks for direct CC312 register access.
pub fn check_cc312_direct_register(ctx: &FileContext, out: &mut Vec<Diagnostic>)
    requires
        ctx.wf(),
    ensures
        diags_view(final(out)@) == diags_view(old(out)@) + cc312_findings(ctx),
{
    let ghost start = diags_view(out@);
    let ghost lb = ctx.lb();
    if ctx.platform != PlatformHint::Nrf5340 {
        assert(diags_view(out@) =~= start + cc312_findings(ctx));
        return;
    }
    let n = ctx.line_bytes.len();
    let mut i: usize = 0;
    while i < n
        invariant
            ctx.wf(),
            lb == ctx.lb(),
            n == lb.len(),
            i <= n,
            diags_view(out@) == start + cc312_over(lb, i as int, ctx.path@, ctx.ls()),
        decreases n - i,
    {
        assert(lb[i as int] == ctx.line_bytes@[i as int]@);
        let t = trim(ctx.line_bytes[i].as_slice());
        let ts = t.as_slice();
        if !(starts_with(ts, "//".as_bytes()) || starts_with(ts, "*".as_bytes())) && (contains(
            ts,
            "CC312".as_bytes(),
        ) || contains(ts, "NRF_CRYPTOCELL".as_bytes())) && (contains(ts, "->".as_bytes()) || contains(
            ts,
            "[".as_bytes(),
        )) {
            emit(
                out,
                RuleId::Crypto006,
                line_span(ctx.path.as_str(), i + 1, &ctx.lines),
                "Direct CC312 register access found in non-secure source.".to_owned(),
                "CC312 access should go through the secure platform wrapper API.",
                "Use nrf_cc3xx_platform_* helpers instead of touching CC312 registers directly.".to_owned(),
            );
        }
        i = i + 1;
        assert(diags_view(out@) =~= start + cc312_over(lb, i as int, ctx.path@, ctx.ls()));
    }
}

} // verus!
