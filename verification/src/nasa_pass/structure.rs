//! Structural checks: function length, assertion density and macro use.

use vstd::prelude::*;
use vstd::string::StringSliceAdditionalSpecFns;

use super::{
    count_code_lines, count_code_lines_exec, fn_name, fn_name_exec, is_assert_call, is_assert_call_exec,
    is_exempt_listed, is_exempt_listed_exec,
};
use super::flow::nodes;
use crate::ast_pass::decls::name_or;
use crate::context::FileContext;
use crate::crypto_pass::{call_target, call_target_exec};
use crate::diagnostic::{chars_of, concat3, emit, finding, line_span, line_span_of, node_span_of, node_to_span, succ, succ_exec, text_of};
use crate::rules::RuleId;
use crate::strs::{decimal, push_decimal};
use crate::syntax::{child_by_field, node_wf, subtree_of_kind};
use crate::text::{copy_range, ends_with, seq_ends_with, seq_starts_with, seq_trim, seq_trim_start, starts_with, trim, trim_start};
use crate::types::{diags_view, Diagnostic, DiagnosticView};

verus! {

/// Function definitions whose counted body lines exceed the limit (`check_function_length`).
pub open spec fn length_at(ctx: &FileContext, f: int) -> Seq<DiagnosticView> {
    let t = ctx.tree@;
    match child_by_field(t, f, "body".spec_bytes()) {
        None => Seq::empty(),
        Some(b) => {
            let bn = t[b as int];
            let c = count_code_lines(ctx.lb(), bn.start_row, bn.end_row);
            if c <= ctx.max_function_lines {
                Seq::empty()
            } else {
                let name = name_or(fn_name(ctx.source@, t, f), "anonymous"@);
                seq![
                    finding(
                        RuleId::Nasa006,
                        node_span_of(ctx.path@, t[f], ctx.ls()),
                        "Function '"@ + name + "' is "@ + decimal(c) + " lines; limit is "@ + decimal(
                            ctx.max_function_lines as nat,
                        ) + "."@,
                        "Counted non-blank, non-comment lines from line "@ + decimal(
                            succ(bn.start_row) as nat,
                        ) + " to "@ + decimal(succ(bn.end_row) as nat) + "."@,
                        "Split setup, core logic, and cleanup into smaller helper functions."@,
                    ),
                ]
            }
        },
    }
}

/// Findings of [`length_at`] over the given functions, in order.
pub open spec fn length_over(ctx: &FileContext, fs: Seq<usize>) -> Seq<DiagnosticView>
    decreases fs.len(),
{
    if fs.len() == 0 {
        Seq::empty()
    } else {
        length_over(ctx, fs.drop_last()) + length_at(ctx, fs.last() as int)
    }
}

/// Number of assertion calls among `cs`.
pub open spec fn assert_count(ctx: &FileContext, cs: Seq<usize>) -> nat
    decreases cs.len(),
{
    if cs.len() == 0 {
        0
    } else {
        assert_count(ctx, cs.drop_last()) + match call_target(ctx.source@, ctx.tree@, cs.last() as int) {
            Some(tg) => if is_assert_call(tg) {
                1nat
            } else {
                0nat
            },
            None => 0nat,
        }
    }
}

/// Non-trivial functions with too few assertions (`check_assertions`).
pub open spec fn assertions_at(ctx: &FileContext, f: int) -> Seq<DiagnosticView> {
    let t = ctx.tree@;
    match child_by_field(t, f, "body".spec_bytes()) {
        None => Seq::empty(),
        Some(b) => {
            let bn = t[b as int];
            let c = count_code_lines(ctx.lb(), bn.start_row, bn.end_row);
            let ac = assert_count(ctx, subtree_of_kind(t, b as int, "call_expression".spec_bytes()));
            if c <= 5 || ac >= ctx.min_assertions {
                Seq::empty()
            } else {
                let name = name_or(fn_name(ctx.source@, t, f), "anonymous"@);
                seq![
                    finding(
                        RuleId::Nasa007,
                        node_span_of(ctx.path@, t[f], ctx.ls()),
                        "Function '"@ + name + "' has "@ + decimal(ac) + " assertion(s); minimum is "@
                            + decimal(ctx.min_assertions as nat) + "."@,
                        "Non-trivial functions should check important preconditions and invariants."@,
                        "Add assertion calls near parameter validation or critical invariants."@,
                    ),
                ]
            }
        },
    }
}

/// Findings of [`assertions_at`] over the given functions, in order.
pub open spec fn assertions_over(ctx: &FileContext, fs: Seq<usize>) -> Seq<DiagnosticView>
    decreases fs.len(),
{
    if fs.len() == 0 {
        Seq::empty()
    } else {
        assertions_over(ctx, fs.drop_last()) + assertions_at(ctx, fs.last() as int)
    }
}

/// White space as `char::is_ascii_whitespace` has it.
pub open spec fn is_std_ascii_ws(b: u8) -> bool {
    b == 32 || b == 9 || b == 10 || b == 12 || b == 13
}

/// End of a macro name: the first white space or `(` from `i` on.
pub open spec fn name_end(rest: Seq<u8>, i: int) -> int
    decreases rest.len() - i,
{
    if 0 <= i < rest.len() && !(is_std_ascii_ws(rest[i]) || rest[i] == 40) {
        name_end(rest, i + 1)
    } else {
        i
    }
}

/// The macro a `#define` line defines, and whether it is function-like
/// (`macro_name_and_shape`).
pub open spec fn macro_of(line: Seq<u8>) -> Option<(Seq<u8>, bool)> {
    let t = seq_trim(line);
    let d = "#define ".spec_bytes();
    if !seq_starts_with(t, d) {
        None
    } else {
        let rest = seq_trim_start(t.subrange(d.len() as int, t.len() as int));
        let e = name_end(rest, 0);
        if e <= 0 {
            None
        } else {
            Some((rest.subrange(0, e), e < rest.len() && rest[e] == 40))
        }
    }
}

/// Macros the check leaves alone: listed ones and include guards.
pub open spec fn is_exempt_macro(name: Seq<u8>) -> bool {
    is_exempt_listed(name) || seq_ends_with(name, "_H".spec_bytes()) || seq_ends_with(
        name,
        "_H_".spec_bytes(),
    )
}

/// Macro finding on one line.
pub open spec fn macro_line(l: Seq<u8>, sp: crate::types::SpanView) -> Seq<DiagnosticView> {
    match macro_of(l) {
        None => Seq::empty(),
        Some((name, fn_like)) => if is_exempt_macro(name) {
            Seq::empty()
        } else if fn_like {
            seq![
                finding(
                    RuleId::Nasa010,
                    sp,
                    "#define uses function-like macro '"@ + chars_of(name) + "'."@,
                    "Restrict the preprocessor to guards and other necessary build-time plumbing."@,
                    "Replace this macro with an inline function or template."@,
                ),
            ]
        } else {
            seq![
                finding(
                    RuleId::Nasa009,
                    sp,
                    "#define uses macro constant '"@ + chars_of(name) + "'."@,
                    "Restrict the preprocessor to guards and other necessary build-time plumbing."@,
                    "Replace this macro with a typed constant or constexpr value."@,
                ),
            ]
        },
    }
}

/// Macro findings on lines `0..n` (`check_macros`).
pub open spec fn macros_over(lb: Seq<Seq<u8>>, n: int, file: Seq<char>, ls: Seq<Seq<char>>) -> Seq<DiagnosticView>
    decreases n,
{
    if n <= 0 {
        Seq::empty()
    } else {
        macros_over(lb, n - 1, file, ls) + macro_line(lb[n - 1], line_span_of(file, n as usize, ls))
    }
}

fn fn_name_text(ctx: &FileContext, f: usize) -> (r: String)
    requires
        ctx.wf(),
        f < ctx.tree@.len(),
    ensures
        r@ == name_or(fn_name(ctx.source@, ctx.tree@, f as int), "anonymous"@),
{
    match fn_name_exec(ctx, f) {
        Some(n) => text_of(n.as_slice()),
        None => "anonymous".to_owned(),
    }
}

fn length_one(ctx: &FileContext, f: usize, out: &mut Vec<Diagnostic>)
    requires
        ctx.wf(),
        f < ctx.tree@.len(),
    ensures
        diags_view(final(out)@) == diags_view(old(out)@) + length_at(ctx, f as int),
{
    let ghost start = diags_view(out@);
    assert(node_wf(ctx.tree@, f as int));
    let b = match ctx.tree.child_by_field(f, "body".as_bytes()) {
        Some(b) => b,
        None => {
            assert(diags_view(out@) =~= start + length_at(ctx, f as int));
            return;
        },
    };
    let sr = ctx.tree.nodes[b].start_row;
    let er = ctx.tree.nodes[b].end_row;
    let c = count_code_lines_exec(ctx, sr, er);
    if c <= ctx.max_function_lines {
        assert(diags_view(out@) =~= start + length_at(ctx, f as int));
        return;
    }
    let name = fn_name_text(ctx, f);
    let mut msg = concat3("Function '", name.as_str(), "' is ");
    push_decimal(&mut msg, c);
    msg.append(" lines; limit is ");
    push_decimal(&mut msg, ctx.max_function_lines);
    msg.append(".");
    let mut note = "Counted non-blank, non-comment lines from line ".to_owned();
    push_decimal(&mut note, succ_exec(sr));
    note.append(" to ");
    push_decimal(&mut note, succ_exec(er));
    note.append(".");
    emit(
        out,
        RuleId::Nasa006,
        node_to_span(&ctx.tree, f, ctx.path.as_str(), &ctx.lines),
        msg,
        note.as_str(),
        "Split setup, core logic, and cleanup into smaller helper functions.".to_owned(),
    );
    assert(diags_view(out@) =~= start + length_at(ctx, f as int));
}

/// Checks function bodies against the configured line limit.
pub fn check_function_length(ctx: &FileContext, out: &mut Vec<Diagnostic>)
    requires
        ctx.wf(),
    ensures
        diags_view(final(out)@) == diags_view(old(out)@) + length_over(
            ctx,
            nodes(ctx, "function_definition".spec_bytes()),
        ),
{
    let ghost start = diags_view(out@);
    let fs = ctx.tree.collect_kind(0, "function_definition".as_bytes());
    let mut k: usize = 0;
    while k < fs.len()
        invariant
            ctx.wf(),
            fs@ == nodes(ctx, "function_definition".spec_bytes()),
            forall|m: int| 0 <= m < fs@.len() ==> 0 <= #[trigger] fs@[m] < ctx.tree@[0].end,
            k <= fs@.len(),
            diags_view(out@) == start + length_over(ctx, fs@.subrange(0, k as int)),
        decreases fs@.len() - k,
    {
        length_one(ctx, fs[k], out);
        assert(fs@.subrange(0, k + 1).drop_last() =~= fs@.subrange(0, k as int));
        k = k + 1;
    }
    assert(fs@.subrange(0, fs@.len() as int) =~= fs@);
}

proof fn lemma_assert_count_bound(ctx: &FileContext, cs: Seq<usize>)
    ensures
        assert_count(ctx, cs) <= cs.len(),
    decreases cs.len(),
{
    if cs.len() > 0 {
        lemma_assert_count_bound(ctx, cs.drop_last());
    }
}

fn assertions_one(ctx: &FileContext, f: usize, out: &mut Vec<Diagnostic>)
    requires
        ctx.wf(),
        f < ctx.tree@.len(),
    ensures
        diags_view(final(out)@) == diags_view(old(out)@) + assertions_at(ctx, f as int),
{
    let ghost start = diags_view(out@);
    assert(node_wf(ctx.tree@, f as int));
    let b = match ctx.tree.child_by_field(f, "body".as_bytes()) {
        Some(b) => b,
        None => {
            assert(diags_view(out@) =~= start + assertions_at(ctx, f as int));
            return;
        },
    };
    assert(node_wf(ctx.tree@, b as int));
    let sr = ctx.tree.nodes[b].start_row;
    let er = ctx.tree.nodes[b].end_row;
    let c = count_code_lines_exec(ctx, sr, er);
    let cs = ctx.tree.collect_kind(b, "call_expression".as_bytes());
    let mut ac: usize = 0;
    let mut k: usize = 0;
    while k < cs.len()
        invariant
            ctx.wf(),
            forall|m: int| 0 <= m < cs@.len() ==> #[trigger] cs@[m] < ctx.tree@.len(),
            k <= cs@.len(),
            ac as nat == assert_count(ctx, cs@.subrange(0, k as int)),
        decreases cs@.len() - k,
    {
        let ghost sub = cs@.subrange(0, k + 1);
        assert(sub.drop_last() =~= cs@.subrange(0, k as int));
        assert(sub.last() == cs@[k as int]);
        proof {
            lemma_assert_count_bound(ctx, cs@.subrange(0, k as int));
        }
        match call_target_exec(ctx, cs[k]) {
            Some(tg) => {
                if is_assert_call_exec(tg.as_slice()) {
                    ac = ac + 1;
                }
            },
            None => {},
        }
        k = k + 1;
    }
    assert(cs@.subrange(0, cs@.len() as int) =~= cs@);
    if c <= 5 || ac >= ctx.min_assertions {
        assert(diags_view(out@) =~= start + assertions_at(ctx, f as int));
        return;
    }
    let name = fn_name_text(ctx, f);
    let mut msg = concat3("Function '", name.as_str(), "' has ");
    push_decimal(&mut msg, ac);
    msg.append(" assertion(s); minimum is ");
    push_decimal(&mut msg, ctx.min_assertions);
    msg.append(".");
    emit(
        out,
        RuleId::Nasa007,
        node_to_span(&ctx.tree, f, ctx.path.as_str(), &ctx.lines),
        msg,
        "Non-trivial functions should check important preconditions and invariants.",
        "Add assertion calls near parameter validation or critical invariants.".to_owned(),
    );
    assert(diags_view(out@) =~= start + assertions_at(ctx, f as int));
}

/// Checks non-trivial functions for assertion calls.
pub fn check_assertions(ctx: &FileContext, out: &mut Vec<Diagnostic>)
    requires
        ctx.wf(),
    ensures
        diags_view(final(out)@) == diags_view(old(out)@) + assertions_over(
            ctx,
            nodes(ctx, "function_definition".spec_bytes()),
        ),
{
    let ghost start = diags_view(out@);
    let fs = ctx.tree.collect_kind(0, "function_definition".as_bytes());
    let mut k: usize = 0;
    while k < fs.len()
        invariant
            ctx.wf(),
            fs@ == nodes(ctx, "function_definition".spec_bytes()),
            forall|m: int| 0 <= m < fs@.len() ==> 0 <= #[trigger] fs@[m] < ctx.tree@[0].end,
            k <= fs@.len(),
            diags_view(out@) == start + assertions_over(ctx, fs@.subrange(0, k as int)),
        decreases fs@.len() - k,
    {
        assertions_one(ctx, fs[k], out);
        assert(fs@.subrange(0, k + 1).drop_last() =~= fs@.subrange(0, k as int));
        k = k + 1;
    }
    assert(fs@.subrange(0, fs@.len() as int) =~= fs@);
}

fn macro_of_exec(l: &[u8]) -> (r: Option<(Vec<u8>, bool)>)
    ensures
        r matches Some((v, b)) ==> macro_of(l@) == Some((v@, b)),
        r is None ==> macro_of(l@) is None,
{
    let t = trim(l);
    let d = "#define ".as_bytes();
    if !starts_with(t.as_slice(), d) {
        return None;
    }
    let after = copy_range(t.as_slice(), d.len(), t.len());
    let rest = trim_start(after.as_slice());
    let n = rest.len();
    let mut e: usize = 0;
    while e < n && !(rest[e] == 32 || rest[e] == 9 || rest[e] == 10 || rest[e] == 12 || rest[e] == 13
        || rest[e] == 40)
        invariant
            n == rest@.len(),
            e <= n,
            name_end(rest@, 0) == name_end(rest@, e as int),
        decreases n - e,
    {
        e = e + 1;
    }
    if e == 0 {
        return None;
    }
    let name = copy_range(rest.as_slice(), 0, e);
    let fn_like = e < n && rest[e] == 40;
    Some((name, fn_like))
}

/// Checks `#define` lines for macro constants and function-like macros.
pub fn check_macros(ctx: &FileContext, out: &mut Vec<Diagnostic>)
    requires
        ctx.wf(),
    ensures
        diags_view(final(out)@) == diags_view(old(out)@) + macros_over(
            ctx.lb(),
            ctx.lb().len() as int,
            ctx.path@,
            ctx.ls(),
        ),
{
    let ghost start = diags_view(out@);
    let ghost lb = ctx.lb();
    let n = ctx.line_bytes.len();
    let mut i: usize = 0;
    while i < n
        invariant
            ctx.wf(),
            lb == ctx.lb(),
            n == lb.len(),
            i <= n,
            diags_view(out@) == start + macros_over(lb, i as int, ctx.path@, ctx.ls()),
        decreases n - i,
    {
        assert(lb[i as int] == ctx.line_bytes@[i as int]@);
        match macro_of_exec(ctx.line_bytes[i].as_slice()) {
            None => {},
            Some((name, fn_like)) => {
                let exempt = is_exempt_listed_exec(name.as_slice()) || ends_with(
                    name.as_slice(),
                    "_H".as_bytes(),
                ) || ends_with(name.as_slice(), "_H_".as_bytes());
                if !exempt {
                    let ns = text_of(name.as_slice());
                    if fn_like {
                        emit(
                            out,
                            RuleId::Nasa010,
                            line_span(ctx.path.as_str(), i + 1, &ctx.lines),
                            concat3("#define uses function-like macro '", ns.as_str(), "'."),
                            "Restrict the preprocessor to guards and other necessary build-time plumbing.",
                            "Replace this macro with an inline function or template.".to_owned(),
                        );
                    } else {
                        emit(
                            out,
                            RuleId::Nasa009,
                            line_span(ctx.path.as_str(), i + 1, &ctx.lines),
                            concat3("#define uses macro constant '", ns.as_str(), "'."),
                            "Restrict the preprocessor to guards and other necessary build-time plumbing.",
                            "Replace this macro with a typed constant or constexpr value.".to_owned(),
                        );
                    }
                }
            },
        }
        i = i + 1;
        assert(diags_view(out@) =~= start + macros_over(lb, i as int, ctx.path@, ctx.ls()));
    }
}

} // verus!
