//! IV and nonce reuse across encrypting calls of one function.

use vstd::prelude::*;
use vstd::string::StringSliceAdditionalSpecFns;

use super::{call_args, call_args_exec, call_target, call_target_exec, is_encrypt_call, is_encrypt_call_exec};
use super::calls::all_functions;
use crate::context::FileContext;
use crate::diagnostic::{chars_of, concat3, emit, finding, node_span_of, node_to_span, succ, succ_exec, text_of};
use crate::rules::RuleId;
use crate::strs::{decimal, decimal_string};
use crate::syntax::{child_by_field, node_text, node_wf, subtree_of_kind};
use crate::text::{bytes_eq, contains, seq_contains, seq_lower, to_lower};
use crate::types::{diags_view, Diagnostic, DiagnosticView};

verus! {

/// Argument text that names an IV or nonce.
pub open spec fn is_iv_text(x: Seq<u8>) -> bool {
    let l = seq_lower(x);
    l == "iv".spec_bytes() || l == "nonce".spec_bytes() || seq_contains(l, "iv_".spec_bytes())
        || seq_contains(l, "_iv".spec_bytes()) || seq_contains(l, "nonce_".spec_bytes())
        || seq_contains(l, "_nonce".spec_bytes())
}

/// The call recorded for an argument text, if any.
pub open spec fn seen_lookup(seen: Seq<(Seq<u8>, usize)>, x: Seq<u8>) -> Option<usize>
    decreases seen.len(),
{
    if seen.len() == 0 {
        None
    } else if seen[0].0 == x {
        Some(seen[0].1)
    } else {
        seen_lookup(seen.subrange(1, seen.len() as int), x)
    }
}

/// Reading the arguments of encrypting call `c` with the texts seen so far:
/// a second use of a text is reported, a first use is recorded.
pub open spec fn iv_args(ctx: &FileContext, c: int, args: Seq<usize>, seen: Seq<(Seq<u8>, usize)>) -> (
    Seq<DiagnosticView>,
    Seq<(Seq<u8>, usize)>,
)
    decreases args.len(),
{
    if args.len() == 0 {
        (Seq::empty(), seen)
    } else {
        let (d, s) = iv_args(ctx, c, args.drop_last(), seen);
        let t = ctx.tree@;
        match node_text(ctx.source@, t, args.last() as int) {
            None => (d, s),
            Some(x) => if !is_iv_text(x) {
                (d, s)
            } else {
                match seen_lookup(s, x) {
                    Some(p) => (
                        d.push(
                            finding(
                                RuleId::Crypto007,
                                node_span_of(ctx.path@, t[c], ctx.ls()),
                                "IV/nonce '"@ + chars_of(x) + "' reused in a second encrypt call."@,
                                "The first use appeared at line "@ + decimal(succ(t[p as int].start_row) as nat)
                                    + "."@,
                                "Generate a fresh IV or nonce for each encryption operation."@,
                            ),
                        ),
                        s,
                    ),
                    None => (d, s.push((x, c as usize))),
                }
            },
        }
    }
}

/// One call of a function body: encrypting calls have their arguments read.
pub open spec fn iv_call_step(ctx: &FileContext, c: int, seen: Seq<(Seq<u8>, usize)>) -> (
    Seq<DiagnosticView>,
    Seq<(Seq<u8>, usize)>,
) {
    match call_target(ctx.source@, ctx.tree@, c) {
        None => (Seq::empty(), seen),
        Some(tg) => if !is_encrypt_call(tg) {
            (Seq::empty(), seen)
        } else {
            match call_args(ctx.tree@, c) {
                None => (Seq::empty(), seen),
                Some(args) => iv_args(ctx, c, args, seen),
            }
        },
    }
}

/// Reading the calls `cs` of one function body in order.
pub open spec fn iv_calls(ctx: &FileContext, cs: Seq<usize>) -> (Seq<DiagnosticView>, Seq<(Seq<u8>, usize)>)
    decreases cs.len(),
{
    if cs.len() == 0 {
        (Seq::empty(), Seq::empty())
    } else {
        let (d, s) = iv_calls(ctx, cs.drop_last());
        let (d2, s2) = iv_call_step(ctx, cs.last() as int, s);
        (d + d2, s2)
    }
}

/// IV reuse inside one function definition.
pub open spec fn iv_at(ctx: &FileContext, f: int) -> Seq<DiagnosticView> {
    match child_by_field(ctx.tree@, f, "body".spec_bytes()) {
        None => Seq::empty(),
        Some(b) => iv_calls(ctx, subtree_of_kind(ctx.tree@, b as int, "call_expression".spec_bytes())).0,
    }
}

/// Findings of [`iv_at`] over the given functions, in order.
pub open spec fn iv_over(ctx: &FileContext, fs: Seq<usize>) -> Seq<DiagnosticView>
    decreases fs.len(),
{
    if fs.len() == 0 {
        Seq::empty()
    } else {
        iv_over(ctx, fs.drop_last()) + iv_at(ctx, fs.last() as int)
    }
}

/// Views of the recorded texts.
pub open spec fn seen_view(v: Seq<(Vec<u8>, usize)>) -> Seq<(Seq<u8>, usize)> {
    Seq::new(v.len(), |i: int| (v[i].0@, v[i].1))
}

fn is_iv_text_exec(x: &[u8]) -> (r: bool)
    ensures
        r == is_iv_text(x@),
{
    let l = to_lower(x);
    let s = l.as_slice();
    bytes_eq(s, "iv".as_bytes()) || bytes_eq(s, "nonce".as_bytes()) || contains(s, "iv_".as_bytes())
        || contains(s, "_iv".as_bytes()) || contains(s, "nonce_".as_bytes()) || contains(
        s,
        "_nonce".as_bytes(),
    )
}

fn seen_lookup_exec(seen: &Vec<(Vec<u8>, usize)>, x: &[u8]) -> (r: Option<usize>)
    ensures
        r == seen_lookup(seen_view(seen@), x@),
        r matches Some(p) ==> exists|m: int| 0 <= m < seen@.len() && #[trigger] seen@[m].1 == p,
{
    let ghost sv = seen_view(seen@);
    let mut k: usize = 0;
    assert(sv.subrange(0, sv.len() as int) =~= sv);
    while k < seen.len()
        invariant
            sv == seen_view(seen@),
            k <= seen@.len(),
            seen_lookup(sv, x@) == seen_lookup(sv.subrange(k as int, sv.len() as int), x@),
        decreases seen@.len() - k,
    {
        let ghost rest = sv.subrange(k as int, sv.len() as int);
        assert(rest.subrange(1, rest.len() as int) =~= sv.subrange(k + 1, sv.len() as int));
        assert(rest[0] == sv[k as int]);
        if bytes_eq(seen[k].0.as_slice(), x) {
            let p = seen[k].1;
            assert(seen@[k as int].1 == p);
            return Some(p);
        }
        k = k + 1;
    }
    None
}

fn iv_call_one(ctx: &FileContext, c: usize, seen: &mut Vec<(Vec<u8>, usize)>, out: &mut Vec<Diagnostic>)
    requires
        ctx.wf(),
        c < ctx.tree@.len(),
        forall|m: int| 0 <= m < old(seen)@.len() ==> #[trigger] old(seen)@[m].1 < ctx.tree@.len(),
    ensures
        diags_view(final(out)@) == diags_view(old(out)@) + iv_call_step(
            ctx,
            c as int,
            seen_view(old(seen)@),
        ).0,
        seen_view(final(seen)@) == iv_call_step(ctx, c as int, seen_view(old(seen)@)).1,
        forall|m: int| 0 <= m < final(seen)@.len() ==> #[trigger] final(seen)@[m].1 < ctx.tree@.len(),
{
    let ghost start = diags_view(out@);
    let ghost s0 = seen_view(seen@);
    let tg = match call_target_exec(ctx, c) {
        Some(t) => t,
        None => {
            assert(diags_view(out@) =~= start + iv_call_step(ctx, c as int, s0).0);
            return;
        },
    };
    if !is_encrypt_call_exec(tg.as_slice()) {
        assert(diags_view(out@) =~= start + iv_call_step(ctx, c as int, s0).0);
        return;
    }
    let args = match call_args_exec(ctx, c) {
        Some(a) => a,
        None => {
            assert(diags_view(out@) =~= start + iv_call_step(ctx, c as int, s0).0);
            return;
        },
    };
    let mut j: usize = 0;
    while j < args.len()
        invariant
            ctx.wf(),
            c < ctx.tree@.len(),
            forall|m: int| 0 <= m < args@.len() ==> #[trigger] args@[m] < ctx.tree@.len(),
            forall|m: int| 0 <= m < seen@.len() ==> #[trigger] seen@[m].1 < ctx.tree@.len(),
            j <= args@.len(),
            diags_view(out@) == start + iv_args(ctx, c as int, args@.subrange(0, j as int), s0).0,
            seen_view(seen@) == iv_args(ctx, c as int, args@.subrange(0, j as int), s0).1,
        decreases args@.len() - j,
    {
        let a = args[j];
        let ghost sub = args@.subrange(0, j + 1);
        assert(sub.drop_last() =~= args@.subrange(0, j as int));
        assert(sub.last() == a);
        let ghost before_out = diags_view(out@);
        let ghost before_seen = seen_view(seen@);
        match ctx.tree.text(ctx.source.as_slice(), a) {
            None => {},
            Some(x) => {
                if is_iv_text_exec(x.as_slice()) {
                    match seen_lookup_exec(seen, x.as_slice()) {
                        Some(p) => {
                            let xs = text_of(x.as_slice());
                            let line = decimal_string(succ_exec(ctx.tree.nodes[p].start_row));
                            let note = concat3("The first use appeared at line ", line.as_str(), ".");
                            emit(
                                out,
                                RuleId::Crypto007,
                                node_to_span(&ctx.tree, c, ctx.path.as_str(), &ctx.lines),
                                concat3("IV/nonce '", xs.as_str(), "' reused in a second encrypt call."),
                                note.as_str(),
                                "Generate a fresh IV or nonce for each encryption operation.".to_owned(),
                            );
                        },
                        None => {
                            seen.push((x, c));
                            assert(seen_view(seen@) =~= before_seen.push((x@, c)));
                        },
                    }
                }
            },
        }
        j = j + 1;
    }
    assert(args@.subrange(0, args@.len() as int) =~= args@);
}

fn iv_one(ctx: &FileContext, f: usize, out: &mut Vec<Diagnostic>)
    requires
        ctx.wf(),
        f < ctx.tree@.len(),
    ensures
        diags_view(final(out)@) == diags_view(old(out)@) + iv_at(ctx, f as int),
{
    let ghost start = diags_view(out@);
    assert(node_wf(ctx.tree@, f as int));
    let b = match ctx.tree.child_by_field(f, "body".as_bytes()) {
        Some(b) => b,
        None => {
            assert(diags_view(out@) =~= start + iv_at(ctx, f as int));
            return;
        },
    };
    assert(node_wf(ctx.tree@, b as int));
    let cs = ctx.tree.collect_kind(b, "call_expression".as_bytes());
    let mut seen: Vec<(Vec<u8>, usize)> = Vec::new();
    let mut k: usize = 0;
    assert(seen_view(seen@) =~= Seq::<(Seq<u8>, usize)>::empty());
    while k < cs.len()
        invariant
            ctx.wf(),
            forall|m: int| 0 <= m < cs@.len() ==> #[trigger] cs@[m] < ctx.tree@.len(),
            forall|m: int| 0 <= m < seen@.len() ==> #[trigger] seen@[m].1 < ctx.tree@.len(),
            k <= cs@.len(),
            diags_view(out@) == start + iv_calls(ctx, cs@.subrange(0, k as int)).0,
            seen_view(seen@) == iv_calls(ctx, cs@.subrange(0, k as int)).1,
        decreases cs@.len() - k,
    {
        let ghost sub = cs@.subrange(0, k + 1);
        assert(sub.drop_last() =~= cs@.subrange(0, k as int));
        assert(sub.last() == cs@[k as int]);
        iv_call_one(ctx, cs[k], &mut seen, out);
        k = k + 1;
    }
    assert(cs@.subrange(0, cs@.len() as int) =~= cs@);
}

/// Checks encrypting calls for a reused IV or nonce (`check_iv_reuse`).
pub fn check_iv_reuse(ctx: &FileContext, out: &mut Vec<Diagnostic>)
    requires
        ctx.wf(),
    ensures
        diags_view(final(out)@) == diags_view(old(out)@) + iv_over(ctx, all_functions(ctx)),
{
    let ghost start = diags_view(out@);
    let fs = ctx.tree.collect_kind(0, "function_definition".as_bytes());
    let mut k: usize = 0;
    while k < fs.len()
        invariant
            ctx.wf(),
            fs@ == all_functions(ctx),
            forall|m: int| 0 <= m < fs@.len() ==> 0 <= #[trigger] fs@[m] < ctx.tree@[0].end,
            k <= fs@.len(),
            diags_view(out@) == start + iv_over(ctx, fs@.subrange(0, k as int)),
        decreases fs@.len() - k,
    {
        iv_one(ctx, fs[k], out);
        assert(fs@.subrange(0, k + 1).drop_last() =~= fs@.subrange(0, k as int));
        k = k + 1;
    }
    assert(fs@.subrange(0, fs@.len() as int) =~= fs@);
}

/// The IV or nonce arguments of call `c` among `args`: each argument whose
/// text names an IV or nonce, with the call, in order.
pub open spec fn arg_uses(ctx: &FileContext, c: int, args: Seq<usize>) -> Seq<(usize, Seq<u8>)>
    decreases args.len(),
{
    if args.len() == 0 {
        Seq::empty()
    } else {
        let u = arg_uses(ctx, c, args.drop_last());
        match node_text(ctx.source@, ctx.tree@, args.last() as int) {
            Some(x) => if is_iv_text(x) {
                u.push((c as usize, x))
            } else {
                u
            },
            None => u,
        }
    }
}

/// The IV or nonce arguments of call `c` when it is an encrypting call.
pub open spec fn call_uses(ctx: &FileContext, c: int) -> Seq<(usize, Seq<u8>)> {
    match call_target(ctx.source@, ctx.tree@, c) {
        None => Seq::empty(),
        Some(tg) => if !is_encrypt_call(tg) {
            Seq::empty()
        } else {
            match call_args(ctx.tree@, c) {
                None => Seq::empty(),
                Some(args) => arg_uses(ctx, c, args),
            }
        },
    }
}

/// Every IV or nonce use of encrypting calls among `cs`, in order.
pub open spec fn iv_uses(ctx: &FileContext, cs: Seq<usize>) -> Seq<(usize, Seq<u8>)>
    decreases cs.len(),
{
    if cs.len() == 0 {
        Seq::empty()
    } else {
        iv_uses(ctx, cs.drop_last()) + call_uses(ctx, cs.last() as int)
    }
}

/// The call of the first use of text `x` among `uses`.
pub open spec fn first_use(uses: Seq<(usize, Seq<u8>)>, x: Seq<u8>) -> Option<usize>
    decreases uses.len(),
{
    if uses.len() == 0 {
        None
    } else if uses[0].1 == x {
        Some(uses[0].0)
    } else {
        first_use(uses.subrange(1, uses.len() as int), x)
    }
}

/// The report for use `u` after the uses `prior`: a reuse finding, pointing
/// at the first use, when `prior` already used the same text; nothing
/// otherwise.
pub open spec fn reuse_finding(ctx: &FileContext, prior: Seq<(usize, Seq<u8>)>, u: (usize, Seq<u8>)) -> Seq<
    DiagnosticView,
> {
    match first_use(prior, u.1) {
        Some(p) => seq![
            finding(
                RuleId::Crypto007,
                node_span_of(ctx.path@, ctx.tree@[u.0 as int], ctx.ls()),
                "IV/nonce '"@ + chars_of(u.1) + "' reused in a second encrypt call."@,
                "The first use appeared at line "@ + decimal(succ(ctx.tree@[p as int].start_row) as nat)
                    + "."@,
                "Generate a fresh IV or nonce for each encryption operation."@,
            ),
        ],
        None => Seq::empty(),
    }
}

/// The reports for `uses`, each judged against `prior` and the uses before it.
pub open spec fn reuse_after(ctx: &FileContext, prior: Seq<(usize, Seq<u8>)>, uses: Seq<(usize, Seq<u8>)>) -> Seq<
    DiagnosticView,
>
    decreases uses.len(),
{
    if uses.len() == 0 {
        Seq::empty()
    } else {
        reuse_after(ctx, prior, uses.drop_last()) + reuse_finding(ctx, prior + uses.drop_last(), uses.last())
    }
}

/// A text has a first use exactly when some use has that text, and the
/// first use is the earliest one.
pub proof fn lemma_first_use(uses: Seq<(usize, Seq<u8>)>, x: Seq<u8>)
    ensures
        first_use(uses, x) is Some <==> exists|j: int| 0 <= j < uses.len() && #[trigger] uses[j].1 == x,
        first_use(uses, x) matches Some(c) ==> exists|j: int|
            0 <= j < uses.len() && uses[j] == (c, x) && forall|m: int| 0 <= m < j ==> #[trigger] uses[m].1 != x,
    decreases uses.len(),
{
    if uses.len() > 0 {
        let rest = uses.subrange(1, uses.len() as int);
        lemma_first_use(rest, x);
        if uses[0].1 != x {
            if exists|j: int| 0 <= j < uses.len() && #[trigger] uses[j].1 == x {
                let j = choose|j: int| 0 <= j < uses.len() && #[trigger] uses[j].1 == x;
                assert(rest[j - 1].1 == x);
            }
            if first_use(uses, x) is Some {
                let j = choose|j: int|
                    0 <= j < rest.len() && rest[j] == (first_use(uses, x)->0, x) && forall|m: int|
                        0 <= m < j ==> #[trigger] rest[m].1 != x;
                assert(uses[j + 1] == rest[j]);
                assert forall|m: int| 0 <= m < j + 1 implies #[trigger] uses[m].1 != x by {
                    if m > 0 {
                        assert(uses[m] == rest[m - 1]);
                    }
                }
            }
        } else {
            assert(uses[0] == (uses[0].0, x));
        }
    }
}

proof fn lemma_first_use_push(uses: Seq<(usize, Seq<u8>)>, u: (usize, Seq<u8>), y: Seq<u8>)
    ensures
        first_use(uses.push(u), y) == match first_use(uses, y) {
            Some(v) => Some(v),
            None => if u.1 == y {
                Some(u.0)
            } else {
                None
            },
        },
    decreases uses.len(),
{
    if uses.len() > 0 {
        let rest = uses.subrange(1, uses.len() as int);
        lemma_first_use_push(rest, u, y);
        assert(uses.push(u).subrange(1, uses.len() as int + 1) =~= rest.push(u));
        assert(uses.push(u)[0] == uses[0]);
        assert(uses.push(u).len() == uses.len() + 1);
    } else {
        let v = uses.push(u);
        assert(v.subrange(1, 1) =~= Seq::<(usize, Seq<u8>)>::empty());
        assert(v[0] == u);
        assert(first_use(v.subrange(1, 1), y) is None);
    }
}

proof fn lemma_seen_push(seen: Seq<(Seq<u8>, usize)>, e: (Seq<u8>, usize), y: Seq<u8>)
    ensures
        seen_lookup(seen.push(e), y) == match seen_lookup(seen, y) {
            Some(v) => Some(v),
            None => if e.0 == y {
                Some(e.1)
            } else {
                None
            },
        },
    decreases seen.len(),
{
    if seen.len() > 0 {
        let rest = seen.subrange(1, seen.len() as int);
        lemma_seen_push(rest, e, y);
        assert(seen.push(e).subrange(1, seen.len() as int + 1) =~= rest.push(e));
        assert(seen.push(e)[0] == seen[0]);
        assert(seen.push(e).len() == seen.len() + 1);
    } else {
        let v = seen.push(e);
        assert(v.subrange(1, 1) =~= Seq::<(Seq<u8>, usize)>::empty());
        assert(v[0] == e);
        assert(seen_lookup(v.subrange(1, 1), y) is None);
    }
}

/// The recorded texts give, for every text, the call of its first use.
pub open spec fn seen_matches(seen: Seq<(Seq<u8>, usize)>, uses: Seq<(usize, Seq<u8>)>) -> bool {
    forall|y: Seq<u8>| #[trigger] seen_lookup(seen, y) == first_use(uses, y)
}

proof fn lemma_reuse_after_concat(
    ctx: &FileContext,
    prior: Seq<(usize, Seq<u8>)>,
    a: Seq<(usize, Seq<u8>)>,
    b: Seq<(usize, Seq<u8>)>,
)
    ensures
        reuse_after(ctx, prior, a + b) == reuse_after(ctx, prior, a) + reuse_after(ctx, prior + a, b),
    decreases b.len(),
{
    if b.len() == 0 {
        assert(a + b =~= a);
        assert(reuse_after(ctx, prior, a) + Seq::empty() =~= reuse_after(ctx, prior, a));
    } else {
        lemma_reuse_after_concat(ctx, prior, a, b.drop_last());
        assert((a + b).drop_last() =~= a + b.drop_last());
        assert((a + b).last() == b.last());
        assert(prior + (a + b.drop_last()) =~= (prior + a) + b.drop_last());
        assert(reuse_after(ctx, prior, a) + reuse_after(ctx, prior + a, b.drop_last()) + reuse_finding(
            ctx,
            (prior + a) + b.drop_last(),
            b.last(),
        ) =~= reuse_after(ctx, prior, a) + (reuse_after(ctx, prior + a, b.drop_last()) + reuse_finding(
            ctx,
            (prior + a) + b.drop_last(),
            b.last(),
        )));
    }
}

proof fn lemma_iv_args(ctx: &FileContext, c: int, args: Seq<usize>, seen: Seq<(Seq<u8>, usize)>, prior: Seq<(usize, Seq<u8>)>)
    requires
        seen_matches(seen, prior),
        0 <= c <= usize::MAX,
    ensures
        iv_args(ctx, c, args, seen).0 == reuse_after(ctx, prior, arg_uses(ctx, c, args)),
        seen_matches(iv_args(ctx, c, args, seen).1, prior + arg_uses(ctx, c, args)),
    decreases args.len(),
{
    if args.len() == 0 {
        assert(prior + Seq::<(usize, Seq<u8>)>::empty() =~= prior);
    } else {
        lemma_iv_args(ctx, c, args.drop_last(), seen, prior);
        let (d, s) = iv_args(ctx, c, args.drop_last(), seen);
        let u1 = arg_uses(ctx, c, args.drop_last());
        match node_text(ctx.source@, ctx.tree@, args.last() as int) {
            None => {},
            Some(x) => if is_iv_text(x) {
                let u = (c as usize, x);
                assert(u1.push(u).drop_last() =~= u1);
                assert((prior + u1).push(u) =~= prior + u1.push(u));
                assert(seen_lookup(s, x) == first_use(prior + u1, x));
                match seen_lookup(s, x) {
                    Some(p) => {
                        assert forall|y: Seq<u8>| #[trigger] seen_lookup(s, y) == first_use(
                            prior + u1.push(u),
                            y,
                        ) by {
                            lemma_first_use_push(prior + u1, u, y);
                        }
                    },
                    None => {
                        assert forall|y: Seq<u8>| #[trigger] seen_lookup(s.push((x, c as usize)), y)
                            == first_use(prior + u1.push(u), y) by {
                            lemma_first_use_push(prior + u1, u, y);
                            lemma_seen_push(s, (x, c as usize), y);
                            assert(seen_lookup(s, y) == first_use(prior + u1, y));
                        }
                        assert(d + Seq::empty() =~= d);
                    },
                }
            },
        }
    }
}

/// Within one function body, a reuse is reported for each IV or nonce use
/// of an encrypting call whose text an earlier use in the same body already
/// had, pointing at the first such use; a first use is never reported.
pub proof fn lemma_iv_reuse(ctx: &FileContext, cs: Seq<usize>)
    ensures
        iv_calls(ctx, cs).0 == reuse_after(ctx, Seq::empty(), iv_uses(ctx, cs)),
        seen_matches(iv_calls(ctx, cs).1, iv_uses(ctx, cs)),
    decreases cs.len(),
{
    if cs.len() > 0 {
        lemma_iv_reuse(ctx, cs.drop_last());
        let (d, s) = iv_calls(ctx, cs.drop_last());
        let u0 = iv_uses(ctx, cs.drop_last());
        let c = cs.last() as int;
        lemma_reuse_after_concat(ctx, Seq::empty(), u0, call_uses(ctx, c));
        assert(Seq::<(usize, Seq<u8>)>::empty() + u0 =~= u0);
        match call_target(ctx.source@, ctx.tree@, c) {
            None => {
                assert(u0 + Seq::<(usize, Seq<u8>)>::empty() =~= u0);
                assert(d + Seq::<DiagnosticView>::empty() =~= d);
            },
            Some(tg) => if !is_encrypt_call(tg) {
                assert(u0 + Seq::<(usize, Seq<u8>)>::empty() =~= u0);
                assert(d + Seq::<DiagnosticView>::empty() =~= d);
            } else {
                match call_args(ctx.tree@, c) {
                    None => {
                        assert(u0 + Seq::<(usize, Seq<u8>)>::empty() =~= u0);
                        assert(d + Seq::<DiagnosticView>::empty() =~= d);
                    },
                    Some(args) => {
                        lemma_iv_args(ctx, c, args, s, u0);
                    },
                }
            },
        }
    } else {
        assert forall|y: Seq<u8>| #[trigger] seen_lookup(Seq::<(Seq<u8>, usize)>::empty(), y) == first_use(
            Seq::<(usize, Seq<u8>)>::empty(),
            y,
        ) by {}
    }
}

/// One use is reported exactly when an earlier use in the same body had
/// the same text, and then once, at this use's call, naming the first use.
pub proof fn lemma_reuse_reported(ctx: &FileContext, prior: Seq<(usize, Seq<u8>)>, u: (usize, Seq<u8>))
    ensures
        reuse_finding(ctx, prior, u).len() == (if exists|j: int|
            0 <= j < prior.len() && #[trigger] prior[j].1 == u.1 {
            1int
        } else {
            0int
        }),
        reuse_finding(ctx, prior, u).len() == 1 ==> exists|j: int|
            0 <= j < prior.len() && prior[j].1 == u.1 && (forall|m: int| 0 <= m < j ==> #[trigger] prior[m].1 != u.1)
                && reuse_finding(ctx, prior, u)[0].span == node_span_of(ctx.path@, ctx.tree@[u.0 as int], ctx.ls())
                && reuse_finding(ctx, prior, u)[0].notes == seq![
                "The first use appeared at line "@ + decimal(succ(ctx.tree@[prior[j].0 as int].start_row) as nat)
                    + "."@,
            ],
{
    lemma_first_use(prior, u.1);
}

} // verus!
