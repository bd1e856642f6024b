//! Control-flow checks: goto, non-local jumps, recursion, loop bounds and
//! dynamic allocation.

use vstd::prelude::*;
use vstd::string::StringSliceAdditionalSpecFns;

use super::{fn_name, fn_name_exec, is_alloc, is_alloc_exec, is_setjmp, is_setjmp_exec, mentions_bound, mentions_bound_exec};
use crate::ast_pass::docs::line_or_empty;
use crate::context::FileContext;
use crate::crypto_pass::{call_target, call_target_exec};
use crate::diagnostic::{chars_of, concat3, emit, finding, node_span_of, node_to_span, text_of};
use crate::rules::RuleId;
use crate::syntax::{child_by_field, node_text, node_wf, subtree_of_kind};
use crate::text::{bytes_eq, contains, is_ascii_digit, is_ident_byte, seq_contains, seq_starts_with, seq_trim, starts_with, trim};
use crate::types::{diags_view, Diagnostic, DiagnosticView};

verus! {

/// Nodes of `kind` in the whole file.
pub open spec fn nodes(ctx: &FileContext, kind: Seq<u8>) -> Seq<usize> {
    subtree_of_kind(ctx.tree@, 0, kind)
}

/// One finding per `goto` statement (`check_goto`).
pub open spec fn goto_over(ctx: &FileContext, ns: Seq<usize>) -> Seq<DiagnosticView>
    decreases ns.len(),
{
    if ns.len() == 0 {
        Seq::empty()
    } else {
        goto_over(ctx, ns.drop_last()) + seq![
            finding(
                RuleId::Nasa001,
                node_span_of(ctx.path@, ctx.tree@[ns.last() as int], ctx.ls()),
                "goto statement found."@,
                "Structured control flow is required for safety-critical firmware."@,
                "Rewrite this path with a loop, early return, or a state variable."@,
            ),
        ]
    }
}

/// Calls of `setjmp`/`longjmp` (`check_setjmp_longjmp`) and of allocation
/// functions (`check_dynamic_alloc`).
pub open spec fn call_rule_at(ctx: &FileContext, c: int, alloc: bool) -> Seq<DiagnosticView> {
    match call_target(ctx.source@, ctx.tree@, c) {
        None => Seq::empty(),
        Some(tg) => if !alloc && is_setjmp(tg) {
            seq![
                finding(
                    RuleId::Nasa002,
                    node_span_of(ctx.path@, ctx.tree@[c], ctx.ls()),
                    chars_of(tg) + "() call found."@,
                    "Non-local jumps make control flow and stack behavior harder to verify."@,
                    "Use structured error handling with return values or explicit state."@,
                ),
            ]
        } else if alloc && is_alloc(tg) {
            seq![
                finding(
                    RuleId::Nasa005,
                    node_span_of(ctx.path@, ctx.tree@[c], ctx.ls()),
                    "Dynamic allocation function '"@ + chars_of(tg) + "()' called."@,
                    "Post-init allocation can introduce fragmentation and timing jitter."@,
                    "Use statically allocated storage or allocate once during initialization."@,
                ),
            ]
        } else {
            Seq::empty()
        },
    }
}

/// Findings of [`call_rule_at`] over the given calls, in order.
pub open spec fn call_rule_over(ctx: &FileContext, cs: Seq<usize>, alloc: bool) -> Seq<DiagnosticView>
    decreases cs.len(),
{
    if cs.len() == 0 {
        Seq::empty()
    } else {
        call_rule_over(ctx, cs.drop_last(), alloc) + call_rule_at(ctx, cs.last() as int, alloc)
    }
}

/// Direct self-calls among `cs` of the function named `name`.
pub open spec fn self_calls(ctx: &FileContext, name: Seq<u8>, cs: Seq<usize>) -> Seq<DiagnosticView>
    decreases cs.len(),
{
    if cs.len() == 0 {
        Seq::empty()
    } else {
        let c = cs.last() as int;
        self_calls(ctx, name, cs.drop_last()) + if call_target(ctx.source@, ctx.tree@, c) == Some(name) {
            seq![
                finding(
                    RuleId::Nasa003,
                    node_span_of(ctx.path@, ctx.tree@[c], ctx.ls()),
                    "Function '"@ + chars_of(name) + "' calls itself directly."@,
                    "Recursive stack depth is not bounded well enough for embedded review."@,
                    "Replace recursion with an iterative algorithm and a bounded worklist."@,
                ),
            ]
        } else {
            Seq::empty()
        }
    }
}

/// Direct recursion in one function definition.
pub open spec fn recursion_at(ctx: &FileContext, f: int) -> Seq<DiagnosticView> {
    let t = ctx.tree@;
    match fn_name(ctx.source@, t, f) {
        None => Seq::empty(),
        Some(name) => match child_by_field(t, f, "body".spec_bytes()) {
            None => Seq::empty(),
            Some(b) => self_calls(ctx, name, subtree_of_kind(t, b as int, "call_expression".spec_bytes())),
        },
    }
}

/// Findings of [`recursion_at`] over the given functions, in order (`check_recursion`).
pub open spec fn recursion_over(ctx: &FileContext, fs: Seq<usize>) -> Seq<DiagnosticView>
    decreases fs.len(),
{
    if fs.len() == 0 {
        Seq::empty()
    } else {
        recursion_over(ctx, fs.drop_last()) + recursion_at(ctx, fs.last() as int)
    }
}

/// Upper-case letter or underscore.
pub open spec fn upper_byte(b: u8) -> bool {
    (65 <= b <= 90) || b == 95
}

/// End of the run of identifier bytes from `i` on.
pub open spec fn ident_run_end(x: Seq<u8>, i: int) -> int
    decreases x.len() - i,
{
    if 0 <= i < x.len() && is_ident_byte(x[i]) {
        ident_run_end(x, i + 1)
    } else {
        i
    }
}

/// The bytes `a..b` are upper-case letters or underscores.
pub open spec fn all_upper(x: Seq<u8>, a: int, b: int) -> bool {
    forall|k: int| a <= k < b ==> upper_byte(#[trigger] x[k])
}

/// Some identifier token of `x[i..]` is an upper-case name of two or more bytes.
pub open spec fn upper_token_from(x: Seq<u8>, i: int) -> bool
    decreases x.len() - i,
{
    if i < 0 || i >= x.len() {
        false
    } else if !is_ident_byte(x[i]) {
        upper_token_from(x, i + 1)
    } else {
        let e = ident_run_end(x, i);
        if e <= i || e > x.len() {
            false
        } else if e - i >= 2 && all_upper(x, i, e) {
            true
        } else {
            upper_token_from(x, e)
        }
    }
}

/// A loop condition with a visibly static bound (`has_static_loop_bound`).
pub open spec fn static_bound(ctx: &FileContext, n: int) -> bool {
    match child_by_field(ctx.tree@, n, "condition".spec_bytes()) {
        Some(c) => match node_text(ctx.source@, ctx.tree@, c as int) {
            Some(x) => seq_contains(x, "sizeof".spec_bytes()) || seq_contains(x, "ARRAY_SIZE".spec_bytes())
                || (exists|k: int| 0 <= k < x.len() && is_ascii_digit(#[trigger] x[k]))
                || upper_token_from(x, 0),
            None => false,
        },
        None => false,
    }
}

/// A comment line that documents a bound.
pub open spec fn bound_comment_line(l: Seq<u8>) -> bool {
    let t = seq_trim(l);
    (seq_starts_with(t, "//".spec_bytes()) || seq_starts_with(t, "/*".spec_bytes()) || seq_starts_with(
        t,
        "*".spec_bytes(),
    ) || seq_starts_with(t, "*/".spec_bytes())) && mentions_bound(t)
}

/// A loop on row `row` has a bound comment just above it or on its own line
/// (`has_loop_bound_comment`).
pub open spec fn bound_comment(lb: Seq<Seq<u8>>, row: int) -> bool {
    let lo = if row >= 3 {
        row - 3
    } else {
        0
    };
    let hi = if row < lb.len() {
        row
    } else {
        lb.len() as int
    };
    (exists|k: int| lo <= k < hi && #[trigger] bound_comment_line(lb[k])) || (0 <= row < lb.len()
        && (seq_contains(lb[row], "//".spec_bytes()) || seq_contains(lb[row], "/*".spec_bytes()))
        && mentions_bound(lb[row]))
}

/// A loop without a documented upper bound.
pub open spec fn loop_at(ctx: &FileContext, n: int, is_for: bool, label: Seq<char>) -> Seq<DiagnosticView> {
    if is_for && static_bound(ctx, n) {
        Seq::empty()
    } else if bound_comment(ctx.lb(), ctx.tree@[n].start_row as int) {
        Seq::empty()
    } else {
        seq![
            finding(
                RuleId::Nasa004,
                node_span_of(ctx.path@, ctx.tree@[n], ctx.ls()),
                label + " has no documented upper bound."@,
                "Loops should state their maximum iteration count in a nearby comment."@,
                "Add a bound comment such as `// max: 256 iterations` above the loop."@,
            ),
        ]
    }
}

/// Findings of [`loop_at`] over the given loops, in order.
pub open spec fn loops_over(ctx: &FileContext, ns: Seq<usize>, is_for: bool, label: Seq<char>) -> Seq<
    DiagnosticView,
>
    decreases ns.len(),
{
    if ns.len() == 0 {
        Seq::empty()
    } else {
        loops_over(ctx, ns.drop_last(), is_for, label) + loop_at(ctx, ns.last() as int, is_for, label)
    }
}

/// `for`, then `while`, then `do` loops without a bound (`check_loop_bounds`).
pub open spec fn loop_findings(ctx: &FileContext) -> Seq<DiagnosticView> {
    loops_over(ctx, nodes(ctx, "for_statement".spec_bytes()), true, "for statement"@) + loops_over(
        ctx,
        nodes(ctx, "while_statement".spec_bytes()),
        false,
        "while statement"@,
    ) + loops_over(ctx, nodes(ctx, "do_statement".spec_bytes()), false, "do statement"@)
}

/// Checks for `goto` statements.
pub fn check_goto(ctx: &FileContext, out: &mut Vec<Diagnostic>)
    requires
        ctx.wf(),
    ensures
        diags_view(final(out)@) == diags_view(old(out)@) + goto_over(
            ctx,
            nodes(ctx, "goto_statement".spec_bytes()),
        ),
{
    let ghost start = diags_view(out@);
    let ns = ctx.tree.collect_kind(0, "goto_statement".as_bytes());
    let mut k: usize = 0;
    while k < ns.len()
        invariant
            ctx.wf(),
            ns@ == nodes(ctx, "goto_statement".spec_bytes()),
            forall|m: int| 0 <= m < ns@.len() ==> 0 <= #[trigger] ns@[m] < ctx.tree@[0].end,
            k <= ns@.len(),
            diags_view(out@) == start + goto_over(ctx, ns@.subrange(0, k as int)),
        decreases ns@.len() - k,
    {
        emit(
            out,
            RuleId::Nasa001,
            node_to_span(&ctx.tree, ns[k], ctx.path.as_str(), &ctx.lines),
            "goto statement found.".to_owned(),
            "Structured control flow is required for safety-critical firmware.",
            "Rewrite this path with a loop, early return, or a state variable.".to_owned(),
        );
        assert(ns@.subrange(0, k + 1).drop_last() =~= ns@.subrange(0, k as int));
        k = k + 1;
    }
    assert(ns@.subrange(0, ns@.len() as int) =~= ns@);
}

fn call_rule_one(ctx: &FileContext, c: usize, alloc: bool, out: &mut Vec<Diagnostic>)
    requires
        ctx.wf(),
        c < ctx.tree@.len(),
    ensures
        diags_view(final(out)@) == diags_view(old(out)@) + call_rule_at(ctx, c as int, alloc),
{
    let ghost start = diags_view(out@);
    let tg = match call_target_exec(ctx, c) {
        Some(t) => t,
        None => {
            assert(diags_view(out@) =~= start + call_rule_at(ctx, c as int, alloc));
            return;
        },
    };
    let ts = text_of(tg.as_slice());
    if !alloc && is_setjmp_exec(tg.as_slice()) {
        emit(
            out,
            RuleId::Nasa002,
            node_to_span(&ctx.tree, c, ctx.path.as_str(), &ctx.lines),
            concat3("", ts.as_str(), "() call found."),
            "Non-local jumps make control flow and stack behavior harder to verify.",
            "Use structured error handling with return values or explicit state.".to_owned(),
        );
        assert(""@ + ts@ =~= ts@) by {
            reveal_strlit("");
        }
    } else if alloc && is_alloc_exec(tg.as_slice()) {
        emit(
            out,
            RuleId::Nasa005,
            node_to_span(&ctx.tree, c, ctx.path.as_str(), &ctx.lines),
            concat3("Dynamic allocation function '", ts.as_str(), "()' called."),
            "Post-init allocation can introduce fragmentation and timing jitter.",
            "Use statically allocated storage or allocate once during initialization.".to_owned(),
        );
    } else {
        assert(diags_view(out@) =~= start + call_rule_at(ctx, c as int, alloc));
    }
}

/// Checks calls against the jump (`alloc == false`) or allocation (`alloc == true`) list.
pub fn check_calls(ctx: &FileContext, alloc: bool, out: &mut Vec<Diagnostic>)
    requires
        ctx.wf(),
    ensures
        diags_view(final(out)@) == diags_view(old(out)@) + call_rule_over(
            ctx,
            nodes(ctx, "call_expression".spec_bytes()),
            alloc,
        ),
{
    let ghost start = diags_view(out@);
    let ns = ctx.tree.collect_kind(0, "call_expression".as_bytes());
    let mut k: usize = 0;
    while k < ns.len()
        invariant
            ctx.wf(),
            ns@ == nodes(ctx, "call_expression".spec_bytes()),
            forall|m: int| 0 <= m < ns@.len() ==> 0 <= #[trigger] ns@[m] < ctx.tree@[0].end,
            k <= ns@.len(),
            diags_view(out@) == start + call_rule_over(ctx, ns@.subrange(0, k as int), alloc),
        decreases ns@.len() - k,
    {
        call_rule_one(ctx, ns[k], alloc, out);
        assert(ns@.subrange(0, k + 1).drop_last() =~= ns@.subrange(0, k as int));
        k = k + 1;
    }
    assert(ns@.subrange(0, ns@.len() as int) =~= ns@);
}

fn recursion_one(ctx: &FileContext, f: usize, out: &mut Vec<Diagnostic>)
    requires
        ctx.wf(),
        f < ctx.tree@.len(),
    ensures
        diags_view(final(out)@) == diags_view(old(out)@) + recursion_at(ctx, f as int),
{
    let ghost start = diags_view(out@);
    assert(node_wf(ctx.tree@, f as int));
    let name = match fn_name_exec(ctx, f) {
        Some(n) => n,
        None => {
            assert(diags_view(out@) =~= start + recursion_at(ctx, f as int));
            return;
        },
    };
    let b = match ctx.tree.child_by_field(f, "body".as_bytes()) {
        Some(b) => b,
        None => {
            assert(diags_view(out@) =~= start + recursion_at(ctx, f as int));
            return;
        },
    };
    assert(node_wf(ctx.tree@, b as int));
    let cs = ctx.tree.collect_kind(b, "call_expression".as_bytes());
    let ns = text_of(name.as_slice());
    let mut k: usize = 0;
    while k < cs.len()
        invariant
            ctx.wf(),
            ns@ == chars_of(name@),
            forall|m: int| 0 <= m < cs@.len() ==> #[trigger] cs@[m] < ctx.tree@.len(),
            k <= cs@.len(),
            diags_view(out@) == start + self_calls(ctx, name@, cs@.subrange(0, k as int)),
        decreases cs@.len() - k,
    {
        let c = cs[k];
        let ghost sub = cs@.subrange(0, k + 1);
        assert(sub.drop_last() =~= cs@.subrange(0, k as int));
        assert(sub.last() == c);
        let hit = match call_target_exec(ctx, c) {
            Some(tg) => bytes_eq(tg.as_slice(), name.as_slice()),
            None => false,
        };
        if hit {
            emit(
                out,
                RuleId::Nasa003,
                node_to_span(&ctx.tree, c, ctx.path.as_str(), &ctx.lines),
                concat3("Function '", ns.as_str(), "' calls itself directly."),
                "Recursive stack depth is not bounded well enough for embedded review.",
                "Replace recursion with an iterative algorithm and a bounded worklist.".to_owned(),
            );
        }
        k = k + 1;
        assert(diags_view(out@) =~= start + self_calls(ctx, name@, cs@.subrange(0, k as int)));
    }
    assert(cs@.subrange(0, cs@.len() as int) =~= cs@);
}

/// Checks functions for direct recursion.
pub fn check_recursion(ctx: &FileContext, out: &mut Vec<Diagnostic>)
    requires
        ctx.wf(),
    ensures
        diags_view(final(out)@) == diags_view(old(out)@) + recursion_over(
            ctx,
            nodes(ctx, "function_definition".spec_bytes()),
        ),
{
    let ghost start = diags_view(out@);
    let fs = ctx.tree.collect_kind(0, "function_definition".as_bytes());
    let mut k: usize = 0;
    while k < fs.len()
        invariant
            ctx.wf(),
            fs@ == nodes(ctx, "function_definition".spec_bytes()),
            forall|m: int| 0 <= m < fs@.len() ==> 0 <= #[trigger] fs@[m] < ctx.tree@[0].end,
            k <= fs@.len(),
            diags_view(out@) == start + recursion_over(ctx, fs@.subrange(0, k as int)),
        decreases fs@.len() - k,
    {
        recursion_one(ctx, fs[k], out);
        assert(fs@.subrange(0, k + 1).drop_last() =~= fs@.subrange(0, k as int));
        k = k + 1;
    }
    assert(fs@.subrange(0, fs@.len() as int) =~= fs@);
}

fn ident_exec(b: u8) -> (r: bool)
    ensures
        r == is_ident_byte(b),
{
    (48 <= b && b <= 57) || (65 <= b && b <= 90) || (97 <= b && b <= 122) || b == 95
}

fn upper_token_exec(x: &[u8]) -> (r: bool)
    ensures
        r == upper_token_from(x@, 0),
{
    let n = x.len();
    let mut i: usize = 0;
    while i < n
        invariant
            n == x@.len(),
            i <= n,
            upper_token_from(x@, 0) == upper_token_from(x@, i as int),
        decreases n - i,
    {
        if !ident_exec(x[i]) {
            i = i + 1;
        } else {
            let mut e = i;
            let mut all = true;
            while e < n && ident_exec(x[e])
                invariant
                    n == x@.len(),
                    i <= e <= n,
                    ident_run_end(x@, i as int) == ident_run_end(x@, e as int),
                    all == all_upper(x@, i as int, e as int),
                decreases n - e,
            {
                all = all && ((65 <= x[e] && x[e] <= 90) || x[e] == 95);
                e = e + 1;
            }
            if e - i >= 2 && all {
                return true;
            }
            i = e;
        }
    }
    false
}

fn static_bound_exec(ctx: &FileContext, n: usize) -> (r: bool)
    requires
        ctx.wf(),
        n < ctx.tree@.len(),
    ensures
        r == static_bound(ctx, n as int),
{
    assert(node_wf(ctx.tree@, n as int));
    match ctx.tree.child_by_field(n, "condition".as_bytes()) {
        Some(c) => match ctx.tree.text(ctx.source.as_slice(), c) {
            Some(x) => {
                let xs = x.as_slice();
                let mut digit = false;
                let mut k: usize = 0;
                while k < x.len()
                    invariant
                        k <= x@.len(),
                        digit == (exists|m: int| 0 <= m < k && is_ascii_digit(#[trigger] x@[m])),
                    decreases x@.len() - k,
                {
                    if 48 <= x[k] && x[k] <= 57 {
                        assert(is_ascii_digit(x@[k as int]));
                        digit = true;
                    }
                    k = k + 1;
                }
                contains(xs, "sizeof".as_bytes()) || contains(xs, "ARRAY_SIZE".as_bytes()) || digit
                    || upper_token_exec(xs)
            },
            None => false,
        },
        None => false,
    }
}

fn bound_comment_exec(ctx: &FileContext, row: usize) -> (r: bool)
    requires
        ctx.wf(),
    ensures
        r == bound_comment(ctx.lb(), row as int),
{
    let ghost lb = ctx.lb();
    let n = ctx.line_bytes.len();
    let lo = if row >= 3 {
        row - 3
    } else {
        0
    };
    let hi = if row < n {
        row
    } else {
        n
    };
    let mut k = lo;
    while k < hi
        invariant
            ctx.wf(),
            lb == ctx.lb(),
            n == lb.len(),
            lo <= k,
            hi <= n,
            lo == (if row >= 3 {
                row - 3
            } else {
                0
            }),
            hi == (if row < n {
                row
            } else {
                n
            }),
            forall|m: int| lo <= m < k ==> !#[trigger] bound_comment_line(lb[m]),
        decreases hi - k,
    {
        assert(lb[k as int] == ctx.line_bytes@[k as int]@);
        let t = trim(ctx.line_bytes[k].as_slice());
        let ts = t.as_slice();
        if (starts_with(ts, "//".as_bytes()) || starts_with(ts, "/*".as_bytes()) || starts_with(
            ts,
            "*".as_bytes(),
        ) || starts_with(ts, "*/".as_bytes())) && mentions_bound_exec(ts) {
            assert(bound_comment_line(lb[k as int]));
            return true;
        }
        k = k + 1;
    }
    if row < n {
        assert(lb[row as int] == ctx.line_bytes@[row as int]@);
        let l = ctx.line_bytes[row].as_slice();
        (contains(l, "//".as_bytes()) || contains(l, "/*".as_bytes())) && mentions_bound_exec(l)
    } else {
        false
    }
}

fn check_loop_kind(
    ctx: &FileContext,
    kind: &str,
    is_for: bool,
    label: &str,
    out: &mut Vec<Diagnostic>,
)
    requires
        ctx.wf(),
    ensures
        diags_view(final(out)@) == diags_view(old(out)@) + loops_over(
            ctx,
            nodes(ctx, kind.spec_bytes()),
            is_for,
            label@,
        ),
{
    let ghost start = diags_view(out@);
    let ns = ctx.tree.collect_kind(0, kind.as_bytes());
    let mut k: usize = 0;
    while k < ns.len()
        invariant
            ctx.wf(),
            ns@ == nodes(ctx, kind.spec_bytes()),
            forall|m: int| 0 <= m < ns@.len() ==> 0 <= #[trigger] ns@[m] < ctx.tree@[0].end,
            k <= ns@.len(),
            diags_view(out@) == start + loops_over(ctx, ns@.subrange(0, k as int), is_for, label@),
        decreases ns@.len() - k,
    {
        let n = ns[k];
        let skip = (is_for && static_bound_exec(ctx, n)) || bound_comment_exec(
            ctx,
            ctx.tree.nodes[n].start_row,
        );
        if !skip {
            emit(
                out,
                RuleId::Nasa004,
                node_to_span(&ctx.tree, n, ctx.path.as_str(), &ctx.lines),
                concat3(label, " has no documented upper bound.", ""),
                "Loops should state their maximum iteration count in a nearby comment.",
                "Add a bound comment such as `// max: 256 iterations` above the loop.".to_owned(),
            );
            assert(label@ + " has no documented upper bound."@ + ""@ =~= label@
                + " has no documented upper bound."@) by {
                reveal_strlit("");
            }
        }
        assert(ns@.subrange(0, k + 1).drop_last() =~= ns@.subrange(0, k as int));
        k = k + 1;
        assert(diags_view(out@) =~= start + loops_over(ctx, ns@.subrange(0, k as int), is_for, label@));
    }
    assert(ns@.subrange(0, ns@.len() as int) =~= ns@);
}

/// Checks loops for a documented upper bound.
pub fn check_loop_bounds(ctx: &FileContext, out: &mut Vec<Diagnostic>)
    requires
        ctx.wf(),
    ensures
        diags_view(final(out)@) == diags_view(old(out)@) + loop_findings(ctx),
{
    let ghost start = diags_view(out@);
    check_loop_kind(ctx, "for_statement", true, "for statement", out);
    check_loop_kind(ctx, "while_statement", false, "while statement", out);
    check_loop_kind(ctx, "do_statement", false, "do statement", out);
    assert(diags_view(out@) =~= start + loop_findings(ctx));
}

} // verus!
