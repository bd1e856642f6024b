//! Scope and usage checks: discarded return values, globals and locals that
//! could be const.

use vstd::prelude::*;
use vstd::string::StringSliceAdditionalSpecFns;

use super::{fn_name, fn_name_exec};
use super::flow::nodes;
use crate::ast_pass::decls::returns_void;
use crate::context::FileContext;
use crate::crypto_pass::{call_target, call_target_exec, ident_in, ident_in_exec};
use crate::diagnostic::{chars_of, concat3, emit, finding, node_span_of, node_to_span, text_of};
use crate::memory_pass::lines::cat3_b;
use crate::rules::RuleId;
use crate::syntax::{child_by_field, named_child, node_text, node_wf, subtree_of_kind, NodeView};
use crate::text::{bytes_eq, contains, copy_range, find, first_occurrence, seq_contains, seq_starts_with, seq_trim, starts_with, trim};
use crate::types::{diags_view, Diagnostic, DiagnosticView};

verus! {

/// The last definition named `name` among `fs` returns a value (the local
/// return map of `check_unchecked_returns`; a later definition wins).
pub open spec fn returns_value(ctx: &FileContext, fs: Seq<usize>, name: Seq<u8>) -> bool
    decreases fs.len(),
{
    if fs.len() == 0 {
        false
    } else {
        let f = fs.last() as int;
        match fn_name(ctx.source@, ctx.tree@, f) {
            Some(n) => if n == name {
                !returns_void(ctx.source@, ctx.tree@, f)
            } else {
                returns_value(ctx, fs.drop_last(), name)
            },
            None => returns_value(ctx, fs.drop_last(), name),
        }
    }
}

/// A discarded call to a local function that returns a value.
pub open spec fn unchecked_at(ctx: &FileContext, st: int) -> Seq<DiagnosticView> {
    let t = ctx.tree@;
    match named_child(t, st, 0) {
        None => Seq::empty(),
        Some(c) => if t[c as int].kind != "call_expression".spec_bytes() {
            Seq::empty()
        } else {
            match call_target(ctx.source@, t, c as int) {
                None => Seq::empty(),
                Some(tg) => if !returns_value(ctx, nodes(ctx, "function_definition".spec_bytes()), tg) {
                    Seq::empty()
                } else {
                    seq![
                        finding(
                            RuleId::Nasa008,
                            node_span_of(ctx.path@, t[st], ctx.ls()),
                            "Return value from '"@ + chars_of(tg) + "()' is discarded."@,
                            "Same-translation-unit non-void calls should not be silently ignored."@,
                            "Use the returned value, handle the error, or cast intentionally to (void)."@,
                        ),
                    ]
                },
            }
        },
    }
}

/// Findings of [`unchecked_at`] over the given statements, in order.
pub open spec fn unchecked_over(ctx: &FileContext, ss: Seq<usize>) -> Seq<DiagnosticView>
    decreases ss.len(),
{
    if ss.len() == 0 {
        Seq::empty()
    } else {
        unchecked_over(ctx, ss.drop_last()) + unchecked_at(ctx, ss.last() as int)
    }
}

/// Discarded return values in one function body.
pub open spec fn unchecked_fn(ctx: &FileContext, f: int) -> Seq<DiagnosticView> {
    match child_by_field(ctx.tree@, f, "body".spec_bytes()) {
        None => Seq::empty(),
        Some(b) => unchecked_over(
            ctx,
            subtree_of_kind(ctx.tree@, b as int, "expression_statement".spec_bytes()),
        ),
    }
}

/// Findings of [`unchecked_fn`] over the given functions (`check_unchecked_returns`).
pub open spec fn unchecked_fns(ctx: &FileContext, fs: Seq<usize>) -> Seq<DiagnosticView>
    decreases fs.len(),
{
    if fs.len() == 0 {
        Seq::empty()
    } else {
        unchecked_fns(ctx, fs.drop_last()) + unchecked_fn(ctx, fs.last() as int)
    }
}

/// Name declared by the first init declarator among `ns` that has one.
pub open spec fn first_init_name(ctx: &FileContext, ns: Seq<usize>) -> Option<Seq<u8>>
    decreases ns.len(),
{
    if ns.len() == 0 {
        None
    } else {
        let n = ns[0] as int;
        match ident_in(ctx.source@, ctx.tree@, n, ctx.tree@[n].end as int) {
            Some(x) => Some(x),
            None => first_init_name(ctx, ns.subrange(1, ns.len() as int)),
        }
    }
}

/// The name a declaration initialises.
pub open spec fn init_name(ctx: &FileContext, d: int) -> Option<Seq<u8>> {
    first_init_name(ctx, subtree_of_kind(ctx.tree@, d, "init_declarator".spec_bytes()))
}

/// A file-scope declaration with an initialiser and no storage qualifier.
pub open spec fn global_at(ctx: &FileContext, d: int) -> Seq<DiagnosticView> {
    let t = ctx.tree@;
    match t[d].parent {
        None => Seq::empty(),
        Some(p) => if t[p as int].kind != "translation_unit".spec_bytes() {
            Seq::empty()
        } else {
            match node_text(ctx.source@, t, d) {
                None => Seq::empty(),
                Some(x) => {
                    let nm = seq_trim(x);
                    if seq_starts_with(nm, "static ".spec_bytes()) || seq_starts_with(
                        nm,
                        "const ".spec_bytes(),
                    ) || seq_starts_with(nm, "extern ".spec_bytes()) || seq_starts_with(
                        nm,
                        "typedef ".spec_bytes(),
                    ) || !seq_contains(nm, "=".spec_bytes()) {
                        Seq::empty()
                    } else {
                        match init_name(ctx, d) {
                            None => Seq::empty(),
                            Some(name) => seq![
                                finding(
                                    RuleId::Nasa011,
                                    node_span_of(ctx.path@, t[d], ctx.ls()),
                                    "Global variable '"@ + chars_of(name) + "' has broad file scope."@,
                                    "Prefer function parameters or module-private static storage when possible."@,
                                    "Narrow the scope of this state or make the ownership explicit."@,
                                ),
                            ],
                        }
                    }
                },
            }
        },
    }
}

/// Findings of [`global_at`] over the given declarations (`check_globals`).
pub open spec fn globals_over(ctx: &FileContext, ds: Seq<usize>) -> Seq<DiagnosticView>
    decreases ds.len(),
{
    if ds.len() == 0 {
        Seq::empty()
    } else {
        globals_over(ctx, ds.drop_last()) + global_at(ctx, ds.last() as int)
    }
}

/// Node `b` is on the parent chain of node `k` (`is_descendant_of`).
pub open spec fn desc_of(t: Seq<NodeView>, k: int, b: int) -> bool
    decreases k,
{
    if k < 0 || k >= t.len() {
        false
    } else {
        match t[k].parent {
            None => false,
            Some(p) => if p == b {
                true
            } else if p < k {
                desc_of(t, p as int, b)
            } else {
                false
            },
        }
    }
}

/// The patterns that assign to or step `name`.
pub open spec fn mutation_pattern(name: Seq<u8>, k: int) -> Seq<u8> {
    if k == 0 {
        name + " =".spec_bytes()
    } else if k == 1 {
        name + " +=".spec_bytes()
    } else if k == 2 {
        name + " -=".spec_bytes()
    } else if k == 3 {
        name + " *=".spec_bytes()
    } else if k == 4 {
        name + " /=".spec_bytes()
    } else if k == 5 {
        name + " %=".spec_bytes()
    } else if k == 6 {
        name + " &=".spec_bytes()
    } else if k == 7 {
        name + " |=".spec_bytes()
    } else if k == 8 {
        name + " ^=".spec_bytes()
    } else if k == 9 {
        name + " <<=".spec_bytes()
    } else if k == 10 {
        name + " >>=".spec_bytes()
    } else if k == 11 {
        name + "++".spec_bytes()
    } else if k == 12 {
        "++".spec_bytes() + name
    } else if k == 13 {
        name + "--".spec_bytes()
    } else {
        "--".spec_bytes() + name
    }
}

/// The body text after the declaration's first occurrence assigns to or steps `name`.
pub open spec fn is_mutated(ctx: &FileContext, name: Seq<u8>, d: int, b: int) -> bool {
    let t = ctx.tree@;
    match (node_text(ctx.source@, t, b), node_text(ctx.source@, t, d)) {
        (Some(bt), Some(dt)) => match first_occurrence(bt, dt) {
            Some(off) => {
                let after = bt.subrange(off + dt.len(), bt.len() as int);
                exists|k: int| 0 <= k < 15 && #[trigger] seq_contains(after, mutation_pattern(name, k))
            },
            None => false,
        },
        _ => false,
    }
}

/// A local declaration in body `b` that is never mutated.
pub open spec fn mutable_decl(ctx: &FileContext, b: int, d: int) -> Seq<DiagnosticView> {
    let t = ctx.tree@;
    if !desc_of(t, d, b) {
        Seq::empty()
    } else {
        match node_text(ctx.source@, t, d) {
            None => Seq::empty(),
            Some(x) => {
                let nm = seq_trim(x);
                if seq_starts_with(nm, "const ".spec_bytes()) || !seq_contains(nm, "=".spec_bytes()) {
                    Seq::empty()
                } else {
                    match init_name(ctx, d) {
                        None => Seq::empty(),
                        Some(name) => if is_mutated(ctx, name, d, b) {
                            Seq::empty()
                        } else {
                            seq![
                                finding(
                                    RuleId::Nasa012,
                                    node_span_of(ctx.path@, t[d], ctx.ls()),
                                    "Local variable '"@ + chars_of(name)
                                        + "' is never mutated after initialization."@,
                                    "Values that never change should be marked const to document intent."@,
                                    "Add const to this declaration if the value is intentionally immutable."@,
                                ),
                            ]
                        },
                    }
                }
            },
        }
    }
}

/// Findings of [`mutable_decl`] over the given declarations of body `b`.
pub open spec fn mutable_over(ctx: &FileContext, b: int, ds: Seq<usize>) -> Seq<DiagnosticView>
    decreases ds.len(),
{
    if ds.len() == 0 {
        Seq::empty()
    } else {
        mutable_over(ctx, b, ds.drop_last()) + mutable_decl(ctx, b, ds.last() as int)
    }
}

/// Locals that could be const in one function body.
pub open spec fn mutable_fn(ctx: &FileContext, f: int) -> Seq<DiagnosticView> {
    match child_by_field(ctx.tree@, f, "body".spec_bytes()) {
        None => Seq::empty(),
        Some(b) => mutable_over(ctx, b as int, subtree_of_kind(ctx.tree@, b as int, "declaration".spec_bytes())),
    }
}

/// Findings of [`mutable_fn`] over the given functions (`check_mutable_where_const`).
pub open spec fn mutable_fns(ctx: &FileContext, fs: Seq<usize>) -> Seq<DiagnosticView>
    decreases fs.len(),
{
    if fs.len() == 0 {
        Seq::empty()
    } else {
        mutable_fns(ctx, fs.drop_last()) + mutable_fn(ctx, fs.last() as int)
    }
}

fn cat2_b(a: &[u8], b: &[u8]) -> (r: Vec<u8>)
    ensures
        r@ == a@ + b@,
{
    let mut v = copy_range(a, 0, a.len());
    assert(v@ =~= a@);
    crate::memory_pass::lines::join_push(&mut v, true, b, b);
    v
}

fn mutation_pattern_exec(name: &[u8], k: usize) -> (r: Vec<u8>)
    requires
        k < 15,
    ensures
        r@ == mutation_pattern(name@, k as int),
{
    if k == 0 {
        cat2_b(name, " =".as_bytes())
    } else if k == 1 {
        cat2_b(name, " +=".as_bytes())
    } else if k == 2 {
        cat2_b(name, " -=".as_bytes())
    } else if k == 3 {
        cat2_b(name, " *=".as_bytes())
    } else if k == 4 {
        cat2_b(name, " /=".as_bytes())
    } else if k == 5 {
        cat2_b(name, " %=".as_bytes())
    } else if k == 6 {
        cat2_b(name, " &=".as_bytes())
    } else if k == 7 {
        cat2_b(name, " |=".as_bytes())
    } else if k == 8 {
        cat2_b(name, " ^=".as_bytes())
    } else if k == 9 {
        cat2_b(name, " <<=".as_bytes())
    } else if k == 10 {
        cat2_b(name, " >>=".as_bytes())
    } else if k == 11 {
        cat2_b(name, "++".as_bytes())
    } else if k == 12 {
        cat2_b("++".as_bytes(), name)
    } else if k == 13 {
        cat2_b(name, "--".as_bytes())
    } else {
        cat2_b("--".as_bytes(), name)
    }
}

fn returns_value_exec(ctx: &FileContext, fs: &Vec<usize>, name: &[u8]) -> (r: bool)
    requires
        ctx.wf(),
        forall|m: int| 0 <= m < fs@.len() ==> #[trigger] fs@[m] < ctx.tree@.len(),
    ensures
        r == returns_value(ctx, fs@, name@),
{
    let mut k = fs.len();
    assert(fs@.subrange(0, fs@.len() as int) =~= fs@);
    while k > 0
        invariant
            ctx.wf(),
            forall|m: int| 0 <= m < fs@.len() ==> #[trigger] fs@[m] < ctx.tree@.len(),
            k <= fs@.len(),
            returns_value(ctx, fs@, name@) == returns_value(ctx, fs@.subrange(0, k as int), name@),
        decreases k,
    {
        let f = fs[k - 1];
        let ghost sub = fs@.subrange(0, k as int);
        assert(sub.drop_last() =~= fs@.subrange(0, k - 1));
        assert(sub.last() == f);
        match fn_name_exec(ctx, f) {
            Some(n) => {
                if bytes_eq(n.as_slice(), name) {
                    return !crate::ast_pass::decls::returns_void_exec(ctx, f);
                }
            },
            None => {},
        }
        k = k - 1;
    }
    false
}

fn unchecked_one(ctx: &FileContext, fs: &Vec<usize>, st: usize, out: &mut Vec<Diagnostic>)
    requires
        ctx.wf(),
        st < ctx.tree@.len(),
        fs@ == nodes(ctx, "function_definition".spec_bytes()),
        forall|m: int| 0 <= m < fs@.len() ==> #[trigger] fs@[m] < ctx.tree@.len(),
    ensures
        diags_view(final(out)@) == diags_view(old(out)@) + unchecked_at(ctx, st as int),
{
    let ghost start = diags_view(out@);
    let c = match ctx.tree.named_child(st, 0) {
        Some(c) => c,
        None => {
            assert(diags_view(out@) =~= start + unchecked_at(ctx, st as int));
            return;
        },
    };
    assert(node_wf(ctx.tree@, st as int));
    if !ctx.tree.is_kind(c, "call_expression".as_bytes()) {
        assert(diags_view(out@) =~= start + unchecked_at(ctx, st as int));
        return;
    }
    let tg = match call_target_exec(ctx, c) {
        Some(t) => t,
        None => {
            assert(diags_view(out@) =~= start + unchecked_at(ctx, st as int));
            return;
        },
    };
    if !returns_value_exec(ctx, fs, tg.as_slice()) {
        assert(diags_view(out@) =~= start + unchecked_at(ctx, st as int));
        return;
    }
    let ts = text_of(tg.as_slice());
    emit(
        out,
        RuleId::Nasa008,
        node_to_span(&ctx.tree, st, ctx.path.as_str(), &ctx.lines),
        concat3("Return value from '", ts.as_str(), "()' is discarded."),
        "Same-translation-unit non-void calls should not be silently ignored.",
        "Use the returned value, handle the error, or cast intentionally to (void).".to_owned(),
    );
}

/// Checks expression statements for discarded local return values.
pub fn check_unchecked_returns(ctx: &FileContext, out: &mut Vec<Diagnostic>)
    requires
        ctx.wf(),
    ensures
        diags_view(final(out)@) == diags_view(old(out)@) + unchecked_fns(
            ctx,
            nodes(ctx, "function_definition".spec_bytes()),
        ),
{
    let ghost start = diags_view(out@);
    let fs = ctx.tree.collect_kind(0, "function_definition".as_bytes());
    let mut k: usize = 0;
    while k < fs.len()
        invariant
            ctx.wf(),
            fs@ == nodes(ctx, "function_definition".spec_bytes()),
            forall|m: int| 0 <= m < fs@.len() ==> 0 <= #[trigger] fs@[m] < ctx.tree@[0].end,
            k <= fs@.len(),
            diags_view(out@) == start + unchecked_fns(ctx, fs@.subrange(0, k as int)),
        decreases fs@.len() - k,
    {
        let f = fs[k];
        let ghost mid = diags_view(out@);
        assert(node_wf(ctx.tree@, f as int));
        match ctx.tree.child_by_field(f, "body".as_bytes()) {
            None => {},
            Some(b) => {
                assert(node_wf(ctx.tree@, b as int));
                let ss = ctx.tree.collect_kind(b, "expression_statement".as_bytes());
                let mut j: usize = 0;
                while j < ss.len()
                    invariant
                        ctx.wf(),
                        fs@ == nodes(ctx, "function_definition".spec_bytes()),
                        forall|m: int| 0 <= m < fs@.len() ==> 0 <= #[trigger] fs@[m] < ctx.tree@[0].end,
                        forall|m: int| 0 <= m < ss@.len() ==> #[trigger] ss@[m] < ctx.tree@.len(),
                        j <= ss@.len(),
                        diags_view(out@) == mid + unchecked_over(ctx, ss@.subrange(0, j as int)),
                    decreases ss@.len() - j,
                {
                    unchecked_one(ctx, &fs, ss[j], out);
                    assert(ss@.subrange(0, j + 1).drop_last() =~= ss@.subrange(0, j as int));
                    j = j + 1;
                }
                assert(ss@.subrange(0, ss@.len() as int) =~= ss@);
            },
        }
        assert(diags_view(out@) =~= mid + unchecked_fn(ctx, f as int));
        assert(fs@.subrange(0, k + 1).drop_last() =~= fs@.subrange(0, k as int));
        k = k + 1;
    }
    assert(fs@.subrange(0, fs@.len() as int) =~= fs@);
}

fn init_name_exec(ctx: &FileContext, d: usize) -> (r: Option<Vec<u8>>)
    requires
        ctx.wf(),
        d < ctx.tree@.len(),
    ensures
        r matches Some(v) ==> init_name(ctx, d as int) == Some(v@),
        r is None ==> init_name(ctx, d as int) is None,
{
    assert(node_wf(ctx.tree@, d as int));
    let ns = ctx.tree.collect_kind(d, "init_declarator".as_bytes());
    let mut k: usize = 0;
    assert(ns@.subrange(0, ns@.len() as int) =~= ns@);
    while k < ns.len()
        invariant
            ctx.wf(),
            d < ctx.tree@.len(),
            ctx.tree@[d as int].end <= ctx.tree@.len(),
            ns@ == subtree_of_kind(ctx.tree@, d as int, "init_declarator".spec_bytes()),
            forall|m: int| 0 <= m < ns@.len() ==> d <= #[trigger] ns@[m] < ctx.tree@[d as int].end,
            k <= ns@.len(),
            init_name(ctx, d as int) == first_init_name(ctx, ns@.subrange(k as int, ns@.len() as int)),
        decreases ns@.len() - k,
    {
        let ghost rest = ns@.subrange(k as int, ns@.len() as int);
        assert(rest.subrange(1, rest.len() as int) =~= ns@.subrange(k + 1, ns@.len() as int));
        assert(rest[0] == ns@[k as int]);
        match ident_in_exec(ctx, ns[k]) {
            Some(x) => {
                return Some(x);
            },
            None => {},
        }
        k = k + 1;
    }
    None
}

fn global_one(ctx: &FileContext, d: usize, out: &mut Vec<Diagnostic>)
    requires
        ctx.wf(),
        d < ctx.tree@.len(),
    ensures
        diags_view(final(out)@) == diags_view(old(out)@) + global_at(ctx, d as int),
{
    let ghost start = diags_view(out@);
    assert(node_wf(ctx.tree@, d as int));
    let p = match ctx.tree.nodes[d].parent {
        Some(p) => p,
        None => {
            assert(diags_view(out@) =~= start + global_at(ctx, d as int));
            return;
        },
    };
    assert(0 < d && p < d);
    if !ctx.tree.is_kind(p, "translation_unit".as_bytes()) {
        assert(diags_view(out@) =~= start + global_at(ctx, d as int));
        return;
    }
    let x = match ctx.tree.text(ctx.source.as_slice(), d) {
        Some(x) => x,
        None => {
            assert(diags_view(out@) =~= start + global_at(ctx, d as int));
            return;
        },
    };
    let nm = trim(x.as_slice());
    let ns = nm.as_slice();
    if starts_with(ns, "static ".as_bytes()) || starts_with(ns, "const ".as_bytes()) || starts_with(
        ns,
        "extern ".as_bytes(),
    ) || starts_with(ns, "typedef ".as_bytes()) || !contains(ns, "=".as_bytes()) {
        assert(diags_view(out@) =~= start + global_at(ctx, d as int));
        return;
    }
    match init_name_exec(ctx, d) {
        None => {
            assert(diags_view(out@) =~= start + global_at(ctx, d as int));
        },
        Some(name) => {
            let n = text_of(name.as_slice());
            emit(
                out,
                RuleId::Nasa011,
                node_to_span(&ctx.tree, d, ctx.path.as_str(), &ctx.lines),
                concat3("Global variable '", n.as_str(), "' has broad file scope."),
                "Prefer function parameters or module-private static storage when possible.",
                "Narrow the scope of this state or make the ownership explicit.".to_owned(),
            );
        },
    }
}

/// Checks file-scope declarations for initialised globals.
pub fn check_globals(ctx: &FileContext, out: &mut Vec<Diagnostic>)
    requires
        ctx.wf(),
    ensures
        diags_view(final(out)@) == diags_view(old(out)@) + globals_over(
            ctx,
            nodes(ctx, "declaration".spec_bytes()),
        ),
{
    let ghost start = diags_view(out@);
    let ds = ctx.tree.collect_kind(0, "declaration".as_bytes());
    let mut k: usize = 0;
    while k < ds.len()
        invariant
            ctx.wf(),
            ds@ == nodes(ctx, "declaration".spec_bytes()),
            forall|m: int| 0 <= m < ds@.len() ==> 0 <= #[trigger] ds@[m] < ctx.tree@[0].end,
            k <= ds@.len(),
            diags_view(out@) == start + globals_over(ctx, ds@.subrange(0, k as int)),
        decreases ds@.len() - k,
    {
        global_one(ctx, ds[k], out);
        assert(ds@.subrange(0, k + 1).drop_last() =~= ds@.subrange(0, k as int));
        k = k + 1;
    }
    assert(ds@.subrange(0, ds@.len() as int) =~= ds@);
}

fn desc_of_exec(ctx: &FileContext, k: usize, b: usize) -> (r: bool)
    requires
        ctx.wf(),
        k < ctx.tree@.len(),
    ensures
        r == desc_of(ctx.tree@, k as int, b as int),
{
    let mut cur = k;
    loop
        invariant
            ctx.wf(),
            cur < ctx.tree@.len(),
            desc_of(ctx.tree@, k as int, b as int) == desc_of(ctx.tree@, cur as int, b as int),
        decreases cur,
    {
        match ctx.tree.nodes[cur].parent {
            None => {
                return false;
            },
            Some(p) => {
                if p == b {
                    return true;
                }
                if p < cur {
                    cur = p;
                } else {
                    return false;
                }
            },
        }
    }
}

fn is_mutated_exec(ctx: &FileContext, name: &[u8], d: usize, b: usize) -> (r: bool)
    requires
        ctx.wf(),
        d < ctx.tree@.len(),
        b < ctx.tree@.len(),
    ensures
        r == is_mutated(ctx, name@, d as int, b as int),
{
    let bt = match ctx.tree.text(ctx.source.as_slice(), b) {
        Some(x) => x,
        None => {
            return false;
        },
    };
    let dt = match ctx.tree.text(ctx.source.as_slice(), d) {
        Some(x) => x,
        None => {
            return false;
        },
    };
    proof {
        crate::text::lemma_first_occurrence_from_some(bt@, dt@, 0);
    }
    let off = match find(bt.as_slice(), dt.as_slice()) {
        Some(o) => o,
        None => {
            return false;
        },
    };
    let n = bt.len();
    assert(off + dt@.len() <= n);
    let after = copy_range(bt.as_slice(), off + dt.len(), n);
    assert(is_mutated(ctx, name@, d as int, b as int) == exists|m: int|
        0 <= m < 15 && #[trigger] seq_contains(after@, mutation_pattern(name@, m)));
    let mut k: usize = 0;
    while k < 15
        invariant
            k <= 15,
            is_mutated(ctx, name@, d as int, b as int) == exists|m: int|
                0 <= m < 15 && #[trigger] seq_contains(after@, mutation_pattern(name@, m)),
            forall|m: int| 0 <= m < k ==> !#[trigger] seq_contains(after@, mutation_pattern(name@, m)),
        decreases 15 - k,
    {
        let pat = mutation_pattern_exec(name, k);
        if contains(after.as_slice(), pat.as_slice()) {
            assert(seq_contains(after@, mutation_pattern(name@, k as int)));
            return true;
        }
        k = k + 1;
    }
    false
}

fn mutable_one(ctx: &FileContext, b: usize, d: usize, out: &mut Vec<Diagnostic>)
    requires
        ctx.wf(),
        b < ctx.tree@.len(),
        d < ctx.tree@.len(),
    ensures
        diags_view(final(out)@) == diags_view(old(out)@) + mutable_decl(ctx, b as int, d as int),
{
    let ghost start = diags_view(out@);
    if !desc_of_exec(ctx, d, b) {
        assert(diags_view(out@) =~= start + mutable_decl(ctx, b as int, d as int));
        return;
    }
    let x = match ctx.tree.text(ctx.source.as_slice(), d) {
        Some(x) => x,
        None => {
            assert(diags_view(out@) =~= start + mutable_decl(ctx, b as int, d as int));
            return;
        },
    };
    let nm = trim(x.as_slice());
    if starts_with(nm.as_slice(), "const ".as_bytes()) || !contains(nm.as_slice(), "=".as_bytes()) {
        assert(diags_view(out@) =~= start + mutable_decl(ctx, b as int, d as int));
        return;
    }
    let name = match init_name_exec(ctx, d) {
        Some(n) => n,
        None => {
            assert(diags_view(out@) =~= start + mutable_decl(ctx, b as int, d as int));
            return;
        },
    };
    if is_mutated_exec(ctx, name.as_slice(), d, b) {
        assert(diags_view(out@) =~= start + mutable_decl(ctx, b as int, d as int));
        return;
    }
    let n = text_of(name.as_slice());
    emit(
        out,
        RuleId::Nasa012,
        node_to_span(&ctx.tree, d, ctx.path.as_str(), &ctx.lines),
        concat3("Local variable '", n.as_str(), "' is never mutated after initialization."),
        "Values that never change should be marked const to document intent.",
        "Add const to this declaration if the value is intentionally immutable.".to_owned(),
    );
}

/// Checks function-local declarations that could be const.
pub fn check_mutable_where_const(ctx: &FileContext, out: &mut Vec<Diagnostic>)
    requires
        ctx.wf(),
    ensures
        diags_view(final(out)@) == diags_view(old(out)@) + mutable_fns(
            ctx,
            nodes(ctx, "function_definition".spec_bytes()),
        ),
{
    let ghost start = diags_view(out@);
    let fs = ctx.tree.collect_kind(0, "function_definition".as_bytes());
    let mut k: usize = 0;
    while k < fs.len()
        invariant
            ctx.wf(),
            fs@ == nodes(ctx, "function_definition".spec_bytes()),
            forall|m: int| 0 <= m < fs@.len() ==> 0 <= #[trigger] fs@[m] < ctx.tree@[0].end,
            k <= fs@.len(),
            diags_view(out@) == start + mutable_fns(ctx, fs@.subrange(0, k as int)),
        decreases fs@.len() - k,
    {
        let f = fs[k];
        let ghost mid = diags_view(out@);
        assert(node_wf(ctx.tree@, f as int));
        match ctx.tree.child_by_field(f, "body".as_bytes()) {
            None => {},
            Some(b) => {
                assert(node_wf(ctx.tree@, b as int));
                let ds = ctx.tree.collect_kind(b, "declaration".as_bytes());
                let mut j: usize = 0;
                while j < ds.len()
                    invariant
                        ctx.wf(),
                        b < ctx.tree@.len(),
                        forall|m: int| 0 <= m < ds@.len() ==> #[trigger] ds@[m] < ctx.tree@.len(),
                        j <= ds@.len(),
                        diags_view(out@) == mid + mutable_over(ctx, b as int, ds@.subrange(0, j as int)),
                    decreases ds@.len() - j,
                {
                    mutable_one(ctx, b, ds[j], out);
                    assert(ds@.subrange(0, j + 1).drop_last() =~= ds@.subrange(0, j as int));
                    j = j + 1;
                }
                assert(ds@.subrange(0, ds@.len() as int) =~= ds@);
            },
        }
        assert(diags_view(out@) =~= mid + mutable_fn(ctx, f as int));
        assert(fs@.subrange(0, k + 1).drop_last() =~= fs@.subrange(0, k as int));
        k = k + 1;
    }
    assert(fs@.subrange(0, fs@.len() as int) =~= fs@);
}

} // verus!
