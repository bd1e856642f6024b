//! Heuristic memory-safety checks: array bounds, null guards, size overflow
//! and size narrowing.

use vstd::prelude::*;
use vstd::string::StringSliceAdditionalSpecFns;

use super::lines::{
    cat3_b, code_portion, code_portion_exec, comment_flags, is_comment_line, join_b, join_b_exec,
    mentions_size, mentions_size_exec, pointer_name, pointer_name_exec,
};
use crate::ast_pass::decls::name_or;
use crate::ast_pass::docs::line_or_empty;
use crate::context::FileContext;
use crate::crypto_pass::{ident_in, ident_in_exec};
use crate::diagnostic::{chars_of, concat3, emit, finding, line_span, line_span_of, node_span_of, node_to_span, text_of};
use crate::paths::{last_index_exec, last_index_of, next_byte, next_byte_exec};
use crate::rules::RuleId;
use crate::syntax::{child_by_field, named_child, named_children, node_text, node_wf, subtree_of_kind, NodeView};
use crate::text::{contains, copy_range, starts_with, is_ascii_digit, seq_contains, seq_trim, seq_trim_end, trim, trim_end, vv};
use crate::types::{diags_view, Diagnostic, DiagnosticView};

verus! {

/// `min(r, n - 1)` with the subtraction held at zero.
pub open spec fn clamp_row(r: usize, n: int) -> int {
    let m = if n > 0 {
        n - 1
    } else {
        0
    };
    if r < m {
        r as int
    } else {
        m
    }
}

/// The node reached from `i` by following `declarator` fields, or the first
/// named child, until a function declarator or a node with no named child.
pub open spec fn descend(t: Seq<NodeView>, i: int) -> int
    decreases t.len() - i,
{
    if i < 0 || i >= t.len() || t[i].kind == "function_declarator".spec_bytes() || named_children(
        t,
        i,
    ).len() == 0 {
        i
    } else {
        let c: int = match child_by_field(t, i, "declarator".spec_bytes()) {
            Some(c) => c as int,
            None => named_children(t, i)[0] as int,
        };
        if c <= i || c >= t.len() {
            i
        } else {
            descend(t, c)
        }
    }
}

/// Pointer names declared by the parameter declarations among `ps`.
pub open spec fn ptr_names_over(src: Seq<u8>, t: Seq<NodeView>, ps: Seq<usize>) -> Seq<Seq<u8>>
    decreases ps.len(),
{
    if ps.len() == 0 {
        Seq::empty()
    } else {
        let prev = ptr_names_over(src, t, ps.drop_last());
        let p = ps.last() as int;
        if t[p].kind != "parameter_declaration".spec_bytes() {
            prev
        } else {
            match node_text(src, t, p) {
                None => prev,
                Some(x) => match pointer_name(x) {
                    Some(n) => prev.push(n),
                    None => prev,
                },
            }
        }
    }
}

/// The comma-separated parts of `s` from byte `i` on (`str::split(',')`).
pub open spec fn comma_parts(s: Seq<u8>, i: int) -> Seq<Seq<u8>>
    decreases s.len() + 1 - i,
{
    if i < 0 || i > s.len() {
        Seq::empty()
    } else {
        let j = next_byte(s, i, 44);
        if j < i || j > s.len() {
            Seq::empty()
        } else if j < s.len() {
            seq![s.subrange(i, j)] + comma_parts(s, j + 1)
        } else {
            seq![s.subrange(i, j)]
        }
    }
}

/// Pointer names among text parts, in order.
pub open spec fn names_from_parts(parts: Seq<Seq<u8>>) -> Seq<Seq<u8>>
    decreases parts.len(),
{
    if parts.len() == 0 {
        Seq::empty()
    } else {
        let prev = names_from_parts(parts.drop_last());
        match pointer_name(parts.last()) {
            Some(n) => prev.push(n),
            None => prev,
        }
    }
}

/// Pointer names read from the text of a function declarator between its
/// first `(` and its last `)`.
pub open spec fn fallback_names(x: Seq<u8>) -> Seq<Seq<u8>> {
    let st = next_byte(x, 0, 40);
    if st >= x.len() {
        Seq::empty()
    } else {
        match last_index_of(x, 41, x.len() as int) {
            None => Seq::empty(),
            Some(e) => if e < st + 1 {
                Seq::empty()
            } else {
                names_from_parts(comma_parts(x.subrange(st + 1, e), 0))
            },
        }
    }
}

/// Pointer parameter names of the function declarator below `d` (`pointer_params`).
pub open spec fn pointer_params(src: Seq<u8>, t: Seq<NodeView>, d: int) -> Seq<Seq<u8>> {
    let fd = descend(t, d);
    if t[fd].kind != "function_declarator".spec_bytes() {
        Seq::empty()
    } else {
        match child_by_field(t, fd, "parameters".spec_bytes()) {
            None => Seq::empty(),
            Some(ps) => {
                let r = ptr_names_over(src, t, named_children(t, ps as int));
                if r.len() > 0 {
                    r
                } else {
                    match node_text(src, t, fd) {
                        None => r,
                        Some(x) => fallback_names(x),
                    }
                }
            },
        }
    }
}

/// Code lines `a..b` of a body that are not comment lines, trimmed at the end.
pub open spec fn body_lines(lb: Seq<Seq<u8>>, a: int, b: int) -> Seq<Seq<u8>>
    decreases b - a,
{
    if b <= a {
        Seq::empty()
    } else {
        body_lines(lb, a, b - 1) + if is_comment_line(lb, b - 1) {
            Seq::empty()
        } else {
            seq![seq_trim_end(code_portion(line_or_empty(lb, b - 1)))]
        }
    }
}

/// The code text of body node `b`.
pub open spec fn body_text(ctx: &FileContext, b: int) -> Seq<u8> {
    let t = ctx.tree@;
    let lb = ctx.lb();
    join_b(
        body_lines(lb, t[b].start_row as int, clamp_row(t[b].end_row, lb.len() as int) + 1),
        "\n".spec_bytes(),
    )
}

/// The body text holds a null check of `p`.
pub open spec fn has_null_check(bt: Seq<u8>, p: Seq<u8>) -> bool {
    ||| seq_contains(bt, "NIRAPOD_ASSERT(".spec_bytes() + p + " != NULL)".spec_bytes())
    ||| seq_contains(bt, "NIRAPOD_ASSERT(".spec_bytes() + p + " != nullptr)".spec_bytes())
    ||| seq_contains(bt, "assert(".spec_bytes() + p + " != NULL)".spec_bytes())
    ||| seq_contains(bt, "assert(".spec_bytes() + p + " != nullptr)".spec_bytes())
    ||| seq_contains(bt, "if (".spec_bytes() + p + " == NULL)".spec_bytes())
    ||| seq_contains(bt, "if (".spec_bytes() + p + " == nullptr)".spec_bytes())
    ||| seq_contains(bt, "if (!".spec_bytes() + p + ")".spec_bytes())
}

/// The body text dereferences `p`.
pub open spec fn derefs(bt: Seq<u8>, p: Seq<u8>) -> bool {
    seq_contains(bt, p + "->".spec_bytes()) || seq_contains(bt, "*".spec_bytes() + p) || seq_contains(
        bt,
        "* ".spec_bytes() + p,
    )
}

/// Unguarded dereferences of the pointer parameters `ps` of function `f`.
pub open spec fn guard_over(ctx: &FileContext, f: int, name: Seq<char>, bt: Seq<u8>, ps: Seq<Seq<u8>>) -> Seq<
    DiagnosticView,
>
    decreases ps.len(),
{
    if ps.len() == 0 {
        Seq::empty()
    } else {
        let p = ps.last();
        guard_over(ctx, f, name, bt, ps.drop_last()) + if !has_null_check(bt, p) && derefs(bt, p) {
            seq![
                finding(
                    RuleId::Mem002,
                    node_span_of(ctx.path@, ctx.tree@[f], ctx.ls()),
                    "Pointer parameter '"@ + chars_of(p) + "' dereferenced without null check in '"@
                        + name + "'."@,
                    "Pointer parameters should be asserted or guarded before dereference."@,
                    "Add NIRAPOD_ASSERT("@ + chars_of(p) + " != NULL); near function entry."@,
                ),
            ]
        } else {
            Seq::empty()
        }
    }
}

/// Null-guard findings on one function definition.
pub open spec fn null_guard_at(ctx: &FileContext, f: int) -> Seq<DiagnosticView> {
    let t = ctx.tree@;
    let src = ctx.source@;
    match (child_by_field(t, f, "declarator".spec_bytes()), child_by_field(t, f, "body".spec_bytes())) {
        (Some(d), Some(b)) => guard_over(
            ctx,
            f,
            name_or(ident_in(src, t, d as int, t[d as int].end as int), "anonymous"@),
            body_text(ctx, b as int),
            pointer_params(src, t, d as int),
        ),
        _ => Seq::empty(),
    }
}

/// Findings of [`null_guard_at`] over the given functions, in order.
pub open spec fn null_guard_over(ctx: &FileContext, fs: Seq<usize>) -> Seq<DiagnosticView>
    decreases fs.len(),
{
    if fs.len() == 0 {
        Seq::empty()
    } else {
        null_guard_over(ctx, fs.drop_last()) + null_guard_at(ctx, fs.last() as int)
    }
}

/// A line with a narrowing cast.
pub open spec fn has_narrowing_cast(l: Seq<u8>) -> bool {
    ||| seq_contains(l, "(int)".spec_bytes())
    ||| seq_contains(l, "(uint32_t)".spec_bytes())
    ||| seq_contains(l, "(int32_t)".spec_bytes())
    ||| seq_contains(l, "static_cast<int>".spec_bytes())
    ||| seq_contains(l, "static_cast<uint32_t>".spec_bytes())
    ||| seq_contains(l, "static_cast<int32_t>".spec_bytes())
}

/// A line that checks a size against a bound.
pub open spec fn is_range_check(p: Seq<u8>) -> bool {
    (seq_contains(p, "NIRAPOD_ASSERT".spec_bytes()) || seq_contains(p, "assert(".spec_bytes())
        || seq_contains(p, "if (".spec_bytes())) && mentions_size(p) && (seq_contains(
        p,
        "<".spec_bytes(),
    ) || seq_contains(p, ">".spec_bytes()))
}

/// Some line in `lo..hi` checks a size against a bound.
pub open spec fn range_checked(lb: Seq<Seq<u8>>, lo: int, hi: int) -> bool {
    exists|k: int| lo <= k < hi && #[trigger] is_range_check(line_or_empty(lb, k))
}

/// `i - 5`, held at zero.
pub open spec fn back5(i: int) -> int {
    if i >= 5 {
        i - 5
    } else {
        0
    }
}

/// Narrowing finding on line `idx` of a body starting on line `a`.
pub open spec fn narrow_line(lb: Seq<Seq<u8>>, a: int, idx: int, file: Seq<char>, ls: Seq<Seq<char>>) -> Seq<
    DiagnosticView,
> {
    let l = line_or_empty(lb, idx);
    let lo = if a > back5(idx) {
        a
    } else {
        back5(idx)
    };
    if !(has_narrowing_cast(l) && mentions_size(l)) || range_checked(lb, lo, idx) {
        Seq::empty()
    } else {
        seq![
            finding(
                RuleId::Mem004,
                line_span_of(file, (idx + 1) as usize, ls),
                "size_t narrowed to int/uint32_t without range check."@,
                "Narrowing size values should be preceded by an explicit upper-bound check."@,
                "Add NIRAPOD_ASSERT(size <= UINT32_MAX); before the cast."@,
            ),
        ]
    }
}

/// Narrowing findings on body lines `a..i`.
pub open spec fn narrow_over(lb: Seq<Seq<u8>>, a: int, i: int, file: Seq<char>, ls: Seq<Seq<char>>) -> Seq<
    DiagnosticView,
>
    decreases i - a,
{
    if i <= a {
        Seq::empty()
    } else {
        narrow_over(lb, a, i - 1, file, ls) + narrow_line(lb, a, i - 1, file, ls)
    }
}

/// Narrowing findings on one function definition.
pub open spec fn narrow_at(ctx: &FileContext, f: int) -> Seq<DiagnosticView> {
    let t = ctx.tree@;
    let lb = ctx.lb();
    match child_by_field(t, f, "body".spec_bytes()) {
        None => Seq::empty(),
        Some(b) => narrow_over(
            lb,
            t[b as int].start_row as int,
            clamp_row(t[b as int].end_row, lb.len() as int) + 1,
            ctx.path@,
            ctx.ls(),
        ),
    }
}

/// Findings of [`narrow_at`] over the given functions, in order.
pub open spec fn narrow_fns(ctx: &FileContext, fs: Seq<usize>) -> Seq<DiagnosticView>
    decreases fs.len(),
{
    if fs.len() == 0 {
        Seq::empty()
    } else {
        narrow_fns(ctx, fs.drop_last()) + narrow_at(ctx, fs.last() as int)
    }
}

/// Every byte is an ASCII digit.
pub open spec fn all_digits(x: Seq<u8>) -> bool {
    forall|k: int| 0 <= k < x.len() ==> is_ascii_digit(#[trigger] x[k])
}

/// The code parts of lines `lo..hi`.
pub open spec fn code_window(lb: Seq<Seq<u8>>, lo: int, hi: int) -> Seq<Seq<u8>> {
    Seq::new((hi - lo) as nat, |j: int| code_portion(lb[lo + j]))
}

/// The window shows a bound check of index text `x`.
pub open spec fn has_bound_check(w: Seq<u8>, x: Seq<u8>) -> bool {
    ||| seq_contains(w, x + " <".spec_bytes())
    ||| seq_contains(w, x + "<".spec_bytes())
    ||| seq_contains(w, x + " >".spec_bytes())
    ||| seq_contains(w, x + ">".spec_bytes())
    ||| seq_contains(w, "assert(".spec_bytes() + x)
    ||| seq_contains(w, "NIRAPOD_ASSERT(".spec_bytes() + x)
}

/// The index node of a subscript expression.
pub open spec fn index_node(t: Seq<NodeView>, s: int) -> Option<usize> {
    match child_by_field(t, s, "index".spec_bytes()) {
        Some(i) => Some(i),
        None => named_child(t, s, 1),
    }
}

/// Bounds finding on one subscript expression.
pub open spec fn bounds_at(ctx: &FileContext, s: int) -> Seq<DiagnosticView> {
    let t = ctx.tree@;
    let lb = ctx.lb();
    match index_node(t, s) {
        None => Seq::empty(),
        Some(i) => match node_text(ctx.source@, t, i as int) {
            None => Seq::empty(),
            Some(raw) => {
                let x = seq_trim(raw);
                let li = clamp_row(t[s].start_row, lb.len() as int);
                if x.len() == 0 || all_digits(x) || is_comment_line(lb, li) || has_bound_check(
                    join_b(code_window(lb, back5(li), li), "\n".spec_bytes()),
                    x,
                ) {
                    Seq::empty()
                } else {
                    seq![
                        finding(
                            RuleId::Mem001,
                            line_span_of(ctx.path@, (li + 1) as usize, ctx.ls()),
                            "Array subscript uses index '"@ + chars_of(x)
                                + "' without visible bounds check."@,
                            "Array indices should be guarded before the access site."@,
                            "Add NIRAPOD_ASSERT("@ + chars_of(x) + " < size); before the subscript expression."@,
                        ),
                    ]
                }
            },
        },
    }
}

/// Findings of [`bounds_at`] over the given subscripts, in order.
pub open spec fn bounds_over(ctx: &FileContext, ss: Seq<usize>) -> Seq<DiagnosticView>
    decreases ss.len(),
{
    if ss.len() == 0 {
        Seq::empty()
    } else {
        bounds_over(ctx, ss.drop_last()) + bounds_at(ctx, ss.last() as int)
    }
}

/// Size-overflow finding on line `i`.
pub open spec fn overflow_line(lb: Seq<Seq<u8>>, i: int, file: Seq<char>, ls: Seq<Seq<char>>) -> Seq<DiagnosticView> {
    let tr = seq_trim(code_portion(lb[i]));
    let w = join_b(lb.subrange(back5(i), i), "\n".spec_bytes());
    if is_comment_line(lb, i) || !mentions_size(tr) || !seq_contains(tr, "+".spec_bytes())
        || seq_contains(w, "SIZE_MAX".spec_bytes()) || seq_contains(w, "UINT32_MAX".spec_bytes()) {
        Seq::empty()
    } else {
        seq![
            finding(
                RuleId::Mem003,
                line_span_of(file, (i + 1) as usize, ls),
                "size_t addition appears without an overflow guard."@,
                "Size arithmetic should be paired with a visible upper-bound assertion."@,
                "Add NIRAPOD_ASSERT(b <= SIZE_MAX - a); before the addition."@,
            ),
        ]
    }
}

/// Size-overflow findings on lines `0..n` (`check_size_overflow`).
pub open spec fn overflow_over(lb: Seq<Seq<u8>>, n: int, file: Seq<char>, ls: Seq<Seq<char>>) -> Seq<DiagnosticView>
    decreases n,
{
    if n <= 0 {
        Seq::empty()
    } else {
        overflow_over(lb, n - 1, file, ls) + overflow_line(lb, n - 1, file, ls)
    }
}

fn descend_exec(ctx: &FileContext, d: usize) -> (r: usize)
    requires
        ctx.wf(),
        d < ctx.tree@.len(),
    ensures
        r as int == descend(ctx.tree@, d as int),
        r < ctx.tree@.len(),
{
    let mut cur = d;
    loop
        invariant
            ctx.wf(),
            cur < ctx.tree@.len(),
            descend(ctx.tree@, d as int) == descend(ctx.tree@, cur as int),
        decreases ctx.tree@.len() - cur,
    {
        assert(node_wf(ctx.tree@, cur as int));
        if ctx.tree.is_kind(cur, "function_declarator".as_bytes()) {
            return cur;
        }
        let ns = ctx.tree.named_children_of(cur);
        if ns.len() == 0 {
            return cur;
        }
        let c = match ctx.tree.child_by_field(cur, "declarator".as_bytes()) {
            Some(c) => c,
            None => ns[0],
        };
        cur = c;
    }
}

fn ptr_names_exec(ctx: &FileContext, ps: &Vec<usize>) -> (r: Vec<Vec<u8>>)
    requires
        ctx.wf(),
        forall|k: int| 0 <= k < ps@.len() ==> #[trigger] ps@[k] < ctx.tree@.len(),
    ensures
        vv(r@) == ptr_names_over(ctx.source@, ctx.tree@, ps@),
{
    let mut out: Vec<Vec<u8>> = Vec::new();
    let mut k: usize = 0;
    while k < ps.len()
        invariant
            ctx.wf(),
            forall|m: int| 0 <= m < ps@.len() ==> #[trigger] ps@[m] < ctx.tree@.len(),
            k <= ps@.len(),
            vv(out@) == ptr_names_over(ctx.source@, ctx.tree@, ps@.subrange(0, k as int)),
        decreases ps@.len() - k,
    {
        let p = ps[k];
        let ghost sub = ps@.subrange(0, k + 1);
        assert(sub.drop_last() =~= ps@.subrange(0, k as int));
        assert(sub.last() == p);
        let ghost prev = vv(out@);
        if ctx.tree.is_kind(p, "parameter_declaration".as_bytes()) {
            match ctx.tree.text(ctx.source.as_slice(), p) {
                Some(x) => match pointer_name_exec(x.as_slice()) {
                    Some(n) => {
                        out.push(n);
                        assert(vv(out@) =~= prev.push(n@));
                    },
                    None => {},
                },
                None => {},
            }
        }
        k = k + 1;
    }
    assert(ps@.subrange(0, ps@.len() as int) =~= ps@);
    out
}

fn comma_parts_exec(s: &[u8]) -> (r: Vec<Vec<u8>>)
    ensures
        vv(r@) == comma_parts(s@, 0),
{
    let n = s.len();
    let mut out: Vec<Vec<u8>> = Vec::new();
    let mut i: usize = 0;
    loop
        invariant
            n == s@.len(),
            i <= n,
            comma_parts(s@, 0) == vv(out@) + comma_parts(s@, i as int),
        decreases n - i,
    {
        let j = next_byte_exec(s, i, 44);
        proof {
            crate::paths::lemma_next_byte(s@, i as int, 44);
        }
        let part = copy_range(s, i, j);
        let ghost prev = vv(out@);
        out.push(part);
        assert(vv(out@) =~= prev.push(part@));
        if j < n {
            assert(comma_parts(s@, i as int) == seq![part@] + comma_parts(s@, j + 1));
            assert(comma_parts(s@, 0) =~= vv(out@) + comma_parts(s@, j + 1));
            i = j + 1;
        } else {
            assert(comma_parts(s@, i as int) == seq![part@]);
            assert(comma_parts(s@, 0) =~= vv(out@));
            return out;
        }
    }
}

fn names_from_parts_exec(parts: &Vec<Vec<u8>>) -> (r: Vec<Vec<u8>>)
    ensures
        vv(r@) == names_from_parts(vv(parts@)),
{
    let ghost pv = vv(parts@);
    let mut out: Vec<Vec<u8>> = Vec::new();
    let mut k: usize = 0;
    while k < parts.len()
        invariant
            pv == vv(parts@),
            k <= parts@.len(),
            vv(out@) == names_from_parts(pv.subrange(0, k as int)),
        decreases parts@.len() - k,
    {
        let ghost sub = pv.subrange(0, k + 1);
        assert(sub.drop_last() =~= pv.subrange(0, k as int));
        assert(sub.last() == parts@[k as int]@);
        let ghost prev = vv(out@);
        match pointer_name_exec(parts[k].as_slice()) {
            Some(n) => {
                out.push(n);
                assert(vv(out@) =~= prev.push(n@));
            },
            None => {},
        }
        k = k + 1;
    }
    assert(pv.subrange(0, parts@.len() as int) =~= pv);
    out
}

fn fallback_names_exec(x: &[u8]) -> (r: Vec<Vec<u8>>)
    ensures
        vv(r@) == fallback_names(x@),
{
    let n = x.len();
    let st = next_byte_exec(x, 0, 40);
    if st >= n {
        let e: Vec<Vec<u8>> = Vec::new();
        assert(vv(e@) =~= Seq::<Seq<u8>>::empty());
        return e;
    }
    match last_index_exec(x, 41) {
        None => {
            let e: Vec<Vec<u8>> = Vec::new();
            assert(vv(e@) =~= Seq::<Seq<u8>>::empty());
            e
        },
        Some(e) => {
            if e < st + 1 {
                let e: Vec<Vec<u8>> = Vec::new();
                assert(vv(e@) =~= Seq::<Seq<u8>>::empty());
                e
            } else {
                let inner = copy_range(x, st + 1, e);
                let parts = comma_parts_exec(inner.as_slice());
                names_from_parts_exec(&parts)
            }
        },
    }
}

fn pointer_params_exec(ctx: &FileContext, d: usize) -> (r: Vec<Vec<u8>>)
    requires
        ctx.wf(),
        d < ctx.tree@.len(),
    ensures
        vv(r@) == pointer_params(ctx.source@, ctx.tree@, d as int),
{
    let fd = descend_exec(ctx, d);
    assert(node_wf(ctx.tree@, fd as int));
    if !ctx.tree.is_kind(fd, "function_declarator".as_bytes()) {
        let e: Vec<Vec<u8>> = Vec::new();
        assert(vv(e@) =~= Seq::<Seq<u8>>::empty());
        return e;
    }
    let ps = match ctx.tree.child_by_field(fd, "parameters".as_bytes()) {
        None => {
            let e: Vec<Vec<u8>> = Vec::new();
            assert(vv(e@) =~= Seq::<Seq<u8>>::empty());
            return e;
        },
        Some(p) => p,
    };
    assert(node_wf(ctx.tree@, ps as int));
    let kids = ctx.tree.named_children_of(ps);
    let r = ptr_names_exec(ctx, &kids);
    if r.len() > 0 {
        return r;
    }
    match ctx.tree.text(ctx.source.as_slice(), fd) {
        None => r,
        Some(x) => fallback_names_exec(x.as_slice()),
    }
}

fn row_end(er: usize, n: usize) -> (r: usize)
    ensures
        r as int == clamp_row(er, n as int) + 1,
{
    let m = if n > 0 {
        n - 1
    } else {
        0
    };
    let e = if er < m {
        er
    } else {
        m
    };
    e + 1
}

fn comment_at(ctx: &FileContext, flags: &Vec<bool>, k: usize) -> (r: bool)
    requires
        ctx.wf(),
        flags@.len() == ctx.line_bytes@.len(),
        forall|i: int| 0 <= i < flags@.len() ==> #[trigger] flags@[i] == is_comment_line(ctx.lb(), i),
    ensures
        r == is_comment_line(ctx.lb(), k as int),
{
    if k < flags.len() {
        flags[k]
    } else {
        let e: Vec<u8> = Vec::new();
        let t = trim(e.as_slice());
        let ts = t.as_slice();
        assert(e@ =~= line_or_empty(ctx.lb(), k as int));
        starts_with(ts, "//".as_bytes()) || starts_with(ts, "*".as_bytes()) || starts_with(
            ts,
            "/*".as_bytes(),
        )
    }
}

fn line_at(ctx: &FileContext, k: usize) -> (r: Vec<u8>)
    requires
        ctx.wf(),
    ensures
        r@ == line_or_empty(ctx.lb(), k as int),
{
    if k < ctx.line_bytes.len() {
        copy_range(ctx.line_bytes[k].as_slice(), 0, ctx.line_bytes[k].len())
    } else {
        Vec::new()
    }
}

fn body_text_exec(ctx: &FileContext, flags: &Vec<bool>, b: usize) -> (r: Vec<u8>)
    requires
        ctx.wf(),
        b < ctx.tree@.len(),
        flags@.len() == ctx.line_bytes@.len(),
        forall|i: int| 0 <= i < flags@.len() ==> #[trigger] flags@[i] == is_comment_line(ctx.lb(), i),
    ensures
        r@ == body_text(ctx, b as int),
{
    let a = ctx.tree.nodes[b].start_row;
    let hi = row_end(ctx.tree.nodes[b].end_row, ctx.line_bytes.len());
    let mut parts: Vec<Vec<u8>> = Vec::new();
    if a >= hi {
        assert(vv(parts@) =~= body_lines(ctx.lb(), a as int, hi as int));
        return join_b_exec(&parts, "\n".as_bytes());
    }
    let mut k = a;
    while k < hi
        invariant
            ctx.wf(),
            flags@.len() == ctx.line_bytes@.len(),
            forall|i: int| 0 <= i < flags@.len() ==> #[trigger] flags@[i] == is_comment_line(ctx.lb(), i),
            a <= k <= hi,
            vv(parts@) == body_lines(ctx.lb(), a as int, k as int),
        decreases hi - k,
    {
        let ghost prev = vv(parts@);
        if !comment_at(ctx, flags, k) {
            let l = line_at(ctx, k);
            let c = code_portion_exec(l.as_slice());
            let t = trim_end(c.as_slice());
            parts.push(t);
            assert(vv(parts@) =~= prev.push(t@));
        }
        k = k + 1;
        assert(vv(parts@) =~= body_lines(ctx.lb(), a as int, k as int));
    }
    assert(vv(parts@) =~= body_lines(ctx.lb(), a as int, hi as int));
    join_b_exec(&parts, "\n".as_bytes())
}

fn has_null_check_exec(bt: &[u8], p: &[u8]) -> (r: bool)
    ensures
        r == has_null_check(bt@, p@),
{
    contains(bt, cat3_b("NIRAPOD_ASSERT(".as_bytes(), p, " != NULL)".as_bytes()).as_slice())
        || contains(bt, cat3_b("NIRAPOD_ASSERT(".as_bytes(), p, " != nullptr)".as_bytes()).as_slice())
        || contains(bt, cat3_b("assert(".as_bytes(), p, " != NULL)".as_bytes()).as_slice()) || contains(
        bt,
        cat3_b("assert(".as_bytes(), p, " != nullptr)".as_bytes()).as_slice(),
    ) || contains(bt, cat3_b("if (".as_bytes(), p, " == NULL)".as_bytes()).as_slice()) || contains(
        bt,
        cat3_b("if (".as_bytes(), p, " == nullptr)".as_bytes()).as_slice(),
    ) || contains(bt, cat3_b("if (!".as_bytes(), p, ")".as_bytes()).as_slice())
}

fn derefs_exec(bt: &[u8], p: &[u8]) -> (r: bool)
    ensures
        r == derefs(bt@, p@),
{
    let a = cat3_b(p, "->".as_bytes(), "".as_bytes());
    let b = cat3_b("*".as_bytes(), p, "".as_bytes());
    let c = cat3_b("* ".as_bytes(), p, "".as_bytes());
    assert(a@ =~= p@ + "->".spec_bytes()) by {
        reveal_strlit("");
    }
    assert(b@ =~= "*".spec_bytes() + p@) by {
        reveal_strlit("");
    }
    assert(c@ =~= "* ".spec_bytes() + p@) by {
        reveal_strlit("");
    }
    contains(bt, a.as_slice()) || contains(bt, b.as_slice()) || contains(bt, c.as_slice())
}

fn null_guard_one(ctx: &FileContext, flags: &Vec<bool>, f: usize, out: &mut Vec<Diagnostic>)
    requires
        ctx.wf(),
        f < ctx.tree@.len(),
        flags@.len() == ctx.line_bytes@.len(),
        forall|i: int| 0 <= i < flags@.len() ==> #[trigger] flags@[i] == is_comment_line(ctx.lb(), i),
    ensures
        diags_view(final(out)@) == diags_view(old(out)@) + null_guard_at(ctx, f as int),
{
    let ghost start = diags_view(out@);
    assert(node_wf(ctx.tree@, f as int));
    let d = match ctx.tree.child_by_field(f, "declarator".as_bytes()) {
        Some(d) => d,
        None => {
            assert(diags_view(out@) =~= start + null_guard_at(ctx, f as int));
            return;
        },
    };
    let b = match ctx.tree.child_by_field(f, "body".as_bytes()) {
        Some(b) => b,
        None => {
            assert(diags_view(out@) =~= start + null_guard_at(ctx, f as int));
            return;
        },
    };
    let bt = body_text_exec(ctx, flags, b);
    let ps = pointer_params_exec(ctx, d);
    let name: String = match ident_in_exec(ctx, d) {
        Some(n) => text_of(n.as_slice()),
        None => "anonymous".to_owned(),
    };
    let ghost pv = vv(ps@);
    let mut k: usize = 0;
    while k < ps.len()
        invariant
            ctx.wf(),
            f < ctx.tree@.len(),
            pv == vv(ps@),
            k <= ps@.len(),
            diags_view(out@) == start + guard_over(ctx, f as int, name@, bt@, pv.subrange(0, k as int)),
        decreases ps@.len() - k,
    {
        let ghost sub = pv.subrange(0, k + 1);
        assert(sub.drop_last() =~= pv.subrange(0, k as int));
        assert(sub.last() == ps@[k as int]@);
        let p = ps[k].as_slice();
        if !has_null_check_exec(bt.as_slice(), p) && derefs_exec(bt.as_slice(), p) {
            let pn = text_of(p);
            let head = concat3("Pointer parameter '", pn.as_str(), "' dereferenced without null check in '");
            emit(
                out,
                RuleId::Mem002,
                node_to_span(&ctx.tree, f, ctx.path.as_str(), &ctx.lines),
                concat3(head.as_str(), name.as_str(), "'."),
                "Pointer parameters should be asserted or guarded before dereference.",
                concat3("Add NIRAPOD_ASSERT(", pn.as_str(), " != NULL); near function entry."),
            );
        }
        k = k + 1;
        assert(diags_view(out@) =~= start + guard_over(ctx, f as int, name@, bt@, pv.subrange(0, k as int)));
    }
    assert(pv.subrange(0, ps@.len() as int) =~= pv);
}

/// The function definitions of the whole file.
pub open spec fn mem_functions(ctx: &FileContext) -> Seq<usize> {
    subtree_of_kind(ctx.tree@, 0, "function_definition".spec_bytes())
}

/// Checks pointer parameters for a null guard before dereference (`check_pointer_null_guard`).
pub fn check_pointer_null_guard(ctx: &FileContext, out: &mut Vec<Diagnostic>)
    requires
        ctx.wf(),
    ensures
        diags_view(final(out)@) == diags_view(old(out)@) + null_guard_over(ctx, mem_functions(ctx)),
{
    let ghost start = diags_view(out@);
    let flags = comment_flags(&ctx.line_bytes);
    let fs = ctx.tree.collect_kind(0, "function_definition".as_bytes());
    let mut k: usize = 0;
    while k < fs.len()
        invariant
            ctx.wf(),
            flags@.len() == ctx.line_bytes@.len(),
            forall|i: int| 0 <= i < flags@.len() ==> #[trigger] flags@[i] == is_comment_line(ctx.lb(), i),
            fs@ == mem_functions(ctx),
            forall|m: int| 0 <= m < fs@.len() ==> 0 <= #[trigger] fs@[m] < ctx.tree@[0].end,
            k <= fs@.len(),
            diags_view(out@) == start + null_guard_over(ctx, fs@.subrange(0, k as int)),
        decreases fs@.len() - k,
    {
        null_guard_one(ctx, &flags, fs[k], out);
        assert(fs@.subrange(0, k + 1).drop_last() =~= fs@.subrange(0, k as int));
        k = k + 1;
    }
    assert(fs@.subrange(0, fs@.len() as int) =~= fs@);
}

fn narrowing_cast_exec(l: &[u8]) -> (r: bool)
    ensures
        r == has_narrowing_cast(l@),
{
    contains(l, "(int)".as_bytes()) || contains(l, "(uint32_t)".as_bytes()) || contains(
        l,
        "(int32_t)".as_bytes(),
    ) || contains(l, "static_cast<int>".as_bytes()) || contains(l, "static_cast<uint32_t>".as_bytes())
        || contains(l, "static_cast<int32_t>".as_bytes())
}

fn range_check_exec(p: &[u8]) -> (r: bool)
    ensures
        r == is_range_check(p@),
{
    (contains(p, "NIRAPOD_ASSERT".as_bytes()) || contains(p, "assert(".as_bytes()) || contains(
        p,
        "if (".as_bytes(),
    )) && mentions_size_exec(p) && (contains(p, "<".as_bytes()) || contains(p, ">".as_bytes()))
}

fn range_checked_exec(ctx: &FileContext, lo: usize, hi: usize) -> (r: bool)
    requires
        ctx.wf(),
    ensures
        r == range_checked(ctx.lb(), lo as int, hi as int),
{
    let mut k = lo;
    while k < hi
        invariant
            ctx.wf(),
            lo <= k,
            forall|m: int| lo <= m < k ==> !#[trigger] is_range_check(line_or_empty(ctx.lb(), m)),
        decreases hi - k,
    {
        let l = line_at(ctx, k);
        if range_check_exec(l.as_slice()) {
            return true;
        }
        k = k + 1;
    }
    false
}

fn back5_exec(i: usize) -> (r: usize)
    ensures
        r as int == back5(i as int),
{
    if i >= 5 {
        i - 5
    } else {
        0
    }
}

fn narrow_one(ctx: &FileContext, f: usize, out: &mut Vec<Diagnostic>)
    requires
        ctx.wf(),
        f < ctx.tree@.len(),
    ensures
        diags_view(final(out)@) == diags_view(old(out)@) + narrow_at(ctx, f as int),
{
    let ghost start = diags_view(out@);
    assert(node_wf(ctx.tree@, f as int));
    let b = match ctx.tree.child_by_field(f, "body".as_bytes()) {
        Some(b) => b,
        None => {
            assert(diags_view(out@) =~= start + narrow_at(ctx, f as int));
            return;
        },
    };
    let a = ctx.tree.nodes[b].start_row;
    let hi = row_end(ctx.tree.nodes[b].end_row, ctx.line_bytes.len());
    if a >= hi {
        assert(diags_view(out@) =~= start + narrow_at(ctx, f as int));
        return;
    }
    let mut i = a;
    while i < hi
        invariant
            ctx.wf(),
            a <= i <= hi,
            diags_view(out@) == start + narrow_over(ctx.lb(), a as int, i as int, ctx.path@, ctx.ls()),
        decreases hi - i,
    {
        let l = line_at(ctx, i);
        let b5 = back5_exec(i);
        let lo = if a > b5 {
            a
        } else {
            b5
        };
        if narrowing_cast_exec(l.as_slice()) && mentions_size_exec(l.as_slice()) && !range_checked_exec(
            ctx,
            lo,
            i,
        ) {
            emit(
                out,
                RuleId::Mem004,
                line_span(ctx.path.as_str(), i + 1, &ctx.lines),
                "size_t narrowed to int/uint32_t without range check.".to_owned(),
                "Narrowing size values should be preceded by an explicit upper-bound check.",
                "Add NIRAPOD_ASSERT(size <= UINT32_MAX); before the cast.".to_owned(),
            );
        }
        i = i + 1;
        assert(diags_view(out@) =~= start + narrow_over(ctx.lb(), a as int, i as int, ctx.path@, ctx.ls()));
    }
}

/// Checks body lines for size narrowing without a range check (`check_size_narrowing`).
pub fn check_size_narrowing(ctx: &FileContext, out: &mut Vec<Diagnostic>)
    requires
        ctx.wf(),
    ensures
        diags_view(final(out)@) == diags_view(old(out)@) + narrow_fns(ctx, mem_functions(ctx)),
{
    let ghost start = diags_view(out@);
    let fs = ctx.tree.collect_kind(0, "function_definition".as_bytes());
    let mut k: usize = 0;
    while k < fs.len()
        invariant
            ctx.wf(),
            fs@ == mem_functions(ctx),
            forall|m: int| 0 <= m < fs@.len() ==> 0 <= #[trigger] fs@[m] < ctx.tree@[0].end,
            k <= fs@.len(),
            diags_view(out@) == start + narrow_fns(ctx, fs@.subrange(0, k as int)),
        decreases fs@.len() - k,
    {
        narrow_one(ctx, fs[k], out);
        assert(fs@.subrange(0, k + 1).drop_last() =~= fs@.subrange(0, k as int));
        k = k + 1;
    }
    assert(fs@.subrange(0, fs@.len() as int) =~= fs@);
}

fn all_digits_exec(x: &[u8]) -> (r: bool)
    ensures
        r == all_digits(x@),
{
    let mut k: usize = 0;
    while k < x.len()
        invariant
            k <= x@.len(),
            forall|m: int| 0 <= m < k ==> is_ascii_digit(#[trigger] x@[m]),
        decreases x@.len() - k,
    {
        if !(48 <= x[k] && x[k] <= 57) {
            return false;
        }
        k = k + 1;
    }
    true
}

fn code_window_exec(ctx: &FileContext, lo: usize, hi: usize) -> (r: Vec<u8>)
    requires
        ctx.wf(),
        lo <= hi <= ctx.line_bytes@.len(),
    ensures
        r@ == join_b(code_window(ctx.lb(), lo as int, hi as int), "\n".spec_bytes()),
{
    let mut parts: Vec<Vec<u8>> = Vec::new();
    let mut k = lo;
    while k < hi
        invariant
            ctx.wf(),
            lo <= k <= hi <= ctx.line_bytes@.len(),
            vv(parts@) =~= code_window(ctx.lb(), lo as int, k as int),
        decreases hi - k,
    {
        assert(ctx.lb()[k as int] == ctx.line_bytes@[k as int]@);
        let c = code_portion_exec(ctx.line_bytes[k].as_slice());
        let ghost prev = vv(parts@);
        parts.push(c);
        assert(vv(parts@) =~= prev.push(c@));
        k = k + 1;
    }
    join_b_exec(&parts, "\n".as_bytes())
}

fn bound_check_exec(w: &[u8], x: &[u8]) -> (r: bool)
    ensures
        r == has_bound_check(w@, x@),
{
    let e = "".as_bytes();
    let p1 = cat3_b(x, " <".as_bytes(), e);
    let p2 = cat3_b(x, "<".as_bytes(), e);
    let p3 = cat3_b(x, " >".as_bytes(), e);
    let p4 = cat3_b(x, ">".as_bytes(), e);
    let p5 = cat3_b("assert(".as_bytes(), x, e);
    let p6 = cat3_b("NIRAPOD_ASSERT(".as_bytes(), x, e);
    proof {
        reveal_strlit("");
    }
    assert(p1@ =~= x@ + " <".spec_bytes());
    assert(p2@ =~= x@ + "<".spec_bytes());
    assert(p3@ =~= x@ + " >".spec_bytes());
    assert(p4@ =~= x@ + ">".spec_bytes());
    assert(p5@ =~= "assert(".spec_bytes() + x@);
    assert(p6@ =~= "NIRAPOD_ASSERT(".spec_bytes() + x@);
    contains(w, p1.as_slice()) || contains(w, p2.as_slice()) || contains(w, p3.as_slice()) || contains(
        w,
        p4.as_slice(),
    ) || contains(w, p5.as_slice()) || contains(w, p6.as_slice())
}

fn index_node_exec(ctx: &FileContext, s: usize) -> (r: Option<usize>)
    requires
        ctx.wf(),
        s < ctx.tree@.len(),
    ensures
        r == index_node(ctx.tree@, s as int),
        r matches Some(i) ==> i < ctx.tree@.len(),
{
    assert(node_wf(ctx.tree@, s as int));
    match ctx.tree.child_by_field(s, "index".as_bytes()) {
        Some(i) => Some(i),
        None => ctx.tree.named_child(s, 1),
    }
}

fn bounds_one(ctx: &FileContext, flags: &Vec<bool>, s: usize, out: &mut Vec<Diagnostic>)
    requires
        ctx.wf(),
        s < ctx.tree@.len(),
        flags@.len() == ctx.line_bytes@.len(),
        forall|i: int| 0 <= i < flags@.len() ==> #[trigger] flags@[i] == is_comment_line(ctx.lb(), i),
    ensures
        diags_view(final(out)@) == diags_view(old(out)@) + bounds_at(ctx, s as int),
{
    let ghost start = diags_view(out@);
    let i = match index_node_exec(ctx, s) {
        Some(i) => i,
        None => {
            assert(diags_view(out@) =~= start + bounds_at(ctx, s as int));
            return;
        },
    };
    let raw = match ctx.tree.text(ctx.source.as_slice(), i) {
        Some(r) => r,
        None => {
            assert(diags_view(out@) =~= start + bounds_at(ctx, s as int));
            return;
        },
    };
    let x = trim(raw.as_slice());
    let n = ctx.line_bytes.len();
    let li = row_end(ctx.tree.nodes[s].start_row, n) - 1;
    if x.len() == 0 || all_digits_exec(x.as_slice()) || comment_at(ctx, flags, li) {
        assert(diags_view(out@) =~= start + bounds_at(ctx, s as int));
        return;
    }
    let w = code_window_exec(ctx, back5_exec(li), li);
    if bound_check_exec(w.as_slice(), x.as_slice()) {
        assert(diags_view(out@) =~= start + bounds_at(ctx, s as int));
        return;
    }
    let xs = text_of(x.as_slice());
    emit(
        out,
        RuleId::Mem001,
        line_span(ctx.path.as_str(), li + 1, &ctx.lines),
        concat3("Array subscript uses index '", xs.as_str(), "' without visible bounds check."),
        "Array indices should be guarded before the access site.",
        concat3("Add NIRAPOD_ASSERT(", xs.as_str(), " < size); before the subscript expression."),
    );
}

/// Checks subscripts for a visible bounds check (`check_array_bounds`).
pub fn check_array_bounds(ctx: &FileContext, out: &mut Vec<Diagnostic>)
    requires
        ctx.wf(),
    ensures
        diags_view(final(out)@) == diags_view(old(out)@) + bounds_over(
            ctx,
            subtree_of_kind(ctx.tree@, 0, "subscript_expression".spec_bytes()),
        ),
{
    let ghost start = diags_view(out@);
    let flags = comment_flags(&ctx.line_bytes);
    let ss = ctx.tree.collect_kind(0, "subscript_expression".as_bytes());
    let mut k: usize = 0;
    while k < ss.len()
        invariant
            ctx.wf(),
            flags@.len() == ctx.line_bytes@.len(),
            forall|i: int| 0 <= i < flags@.len() ==> #[trigger] flags@[i] == is_comment_line(ctx.lb(), i),
            ss@ == subtree_of_kind(ctx.tree@, 0, "subscript_expression".spec_bytes()),
            forall|m: int| 0 <= m < ss@.len() ==> 0 <= #[trigger] ss@[m] < ctx.tree@[0].end,
            k <= ss@.len(),
            diags_view(out@) == start + bounds_over(ctx, ss@.subrange(0, k as int)),
        decreases ss@.len() - k,
    {
        bounds_one(ctx, &flags, ss[k], out);
        assert(ss@.subrange(0, k + 1).drop_last() =~= ss@.subrange(0, k as int));
        k = k + 1;
    }
    assert(ss@.subrange(0, ss@.len() as int) =~= ss@);
}

fn raw_window_exec(ctx: &FileContext, lo: usize, hi: usize) -> (r: Vec<u8>)
    requires
        ctx.wf(),
        lo <= hi <= ctx.line_bytes@.len(),
    ensures
        r@ == join_b(ctx.lb().subrange(lo as int, hi as int), "\n".spec_bytes()),
{
    let mut parts: Vec<Vec<u8>> = Vec::new();
    let mut k = lo;
    while k < hi
        invariant
            ctx.wf(),
            lo <= k <= hi <= ctx.line_bytes@.len(),
            vv(parts@) =~= ctx.lb().subrange(lo as int, k as int),
        decreases hi - k,
    {
        assert(ctx.lb()[k as int] == ctx.line_bytes@[k as int]@);
        let c = copy_range(ctx.line_bytes[k].as_slice(), 0, ctx.line_bytes[k].len());
        assert(c@ =~= ctx.line_bytes@[k as int]@);
        let ghost prev = vv(parts@);
        parts.push(c);
        assert(vv(parts@) =~= prev.push(c@));
        assert(ctx.lb().subrange(lo as int, k + 1) =~= ctx.lb().subrange(lo as int, k as int).push(c@));
        k = k + 1;
    }
    join_b_exec(&parts, "\n".as_bytes())
}

/// Checks size additions for an overflow guard (`check_size_overflow`).
pub fn check_size_overflow(ctx: &FileContext, out: &mut Vec<Diagnostic>)
    requires
        ctx.wf(),
    ensures
        diags_view(final(out)@) == diags_view(old(out)@) + overflow_over(
            ctx.lb(),
            ctx.lb().len() as int,
            ctx.path@,
            ctx.ls(),
        ),
{
    let ghost start = diags_view(out@);
    let flags = comment_flags(&ctx.line_bytes);
    let n = ctx.line_bytes.len();
    let mut i: usize = 0;
    while i < n
        invariant
            ctx.wf(),
            n == ctx.line_bytes@.len(),
            flags@.len() == n,
            forall|j: int| 0 <= j < flags@.len() ==> #[trigger] flags@[j] == is_comment_line(ctx.lb(), j),
            i <= n,
            diags_view(out@) == start + overflow_over(ctx.lb(), i as int, ctx.path@, ctx.ls()),
        decreases n - i,
    {
        assert(ctx.lb()[i as int] == ctx.line_bytes@[i as int]@);
        let c = code_portion_exec(ctx.line_bytes[i].as_slice());
        let tr = trim(c.as_slice());
        if !flags[i] && mentions_size_exec(tr.as_slice()) && contains(tr.as_slice(), "+".as_bytes()) {
            let w = raw_window_exec(ctx, back5_exec(i), i);
            if !contains(w.as_slice(), "SIZE_MAX".as_bytes()) && !contains(
                w.as_slice(),
                "UINT32_MAX".as_bytes(),
            ) {
                emit(
                    out,
                    RuleId::Mem003,
                    line_span(ctx.path.as_str(), i + 1, &ctx.lines),
                    "size_t addition appears without an overflow guard.".to_owned(),
                    "Size arithmetic should be paired with a visible upper-bound assertion.",
                    "Add NIRAPOD_ASSERT(b <= SIZE_MAX - a); before the addition.".to_owned(),
                );
            }
        }
        i = i + 1;
        assert(diags_view(out@) =~= start + overflow_over(ctx.lb(), i as int, ctx.path@, ctx.ls()));
    }
}

} // verus!
