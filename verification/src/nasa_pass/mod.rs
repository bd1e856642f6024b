//! NASA/JPL safety checks for deterministic embedded firmware.

pub mod flow;
pub mod scope;
pub mod structure;

use vstd::prelude::*;
use vstd::string::StringSliceAdditionalSpecFns;

use crate::ast_pass::docs::line_or_empty;
use crate::pass::{c_cpp, c_cpp_languages, Pass};
use crate::types::{diags_view, Diagnostic, DiagnosticView, FileRole, SourceLanguage};
use flow::{
    call_rule_over, check_calls, check_goto, check_loop_bounds, check_recursion, goto_over,
    loop_findings, nodes, recursion_over,
};
use scope::{
    check_globals, check_mutable_where_const, check_unchecked_returns, globals_over, mutable_fns,
    unchecked_fns,
};
use structure::{
    assertions_over, check_assertions, check_function_length, check_macros, length_over,
    macros_over,
};
use crate::context::FileContext;
use crate::crypto_pass::{ident_in, ident_in_exec};
use crate::syntax::{child_by_field, node_text, node_wf, NodeView};
use crate::text::{
    bytes_eq, contains, is_ascii_digit, is_ident_byte, seq_contains, seq_lower, seq_starts_with,
    seq_trim, starts_with, to_lower, trim, vv,
};

verus! {

/// Non-local jump functions.
pub open spec fn setjmp_function(k: int) -> &'static str {
    if k == 0 {
        "setjmp"
    } else if k == 1 {
        "longjmp"
    } else if k == 2 {
        "_setjmp"
    } else if k == 3 {
        "_longjmp"
    } else {
        "_longjmp"
    }
}

/// Number of entries of [`setjmp_function`].
pub open spec fn setjmp_function_count() -> int {
    4
}

fn setjmp_function_exec(k: usize) -> (r: &'static str)
    ensures
        r == setjmp_function(k as int),
{
    if k == 0 {
        "setjmp"
    } else if k == 1 {
        "longjmp"
    } else if k == 2 {
        "_setjmp"
    } else if k == 3 {
        "_longjmp"
    } else {
        "_longjmp"
    }
}

fn setjmp_function_count_exec() -> (r: usize)
    ensures
        r == setjmp_function_count(),
{
    4
}

/// Dynamic allocation functions.
pub open spec fn alloc_function(k: int) -> &'static str {
    if k == 0 {
        "malloc"
    } else if k == 1 {
        "calloc"
    } else if k == 2 {
        "realloc"
    } else if k == 3 {
        "free"
    } else if k == 4 {
        "aligned_alloc"
    } else if k == 5 {
        "posix_memalign"
    } else if k == 6 {
        "strdup"
    } else if k == 7 {
        "strndup"
    } else {
        "strndup"
    }
}

/// Number of entries of [`alloc_function`].
pub open spec fn alloc_function_count() -> int {
    8
}

fn alloc_function_exec(k: usize) -> (r: &'static str)
    ensures
        r == alloc_function(k as int),
{
    if k == 0 {
        "malloc"
    } else if k == 1 {
        "calloc"
    } else if k == 2 {
        "realloc"
    } else if k == 3 {
        "free"
    } else if k == 4 {
        "aligned_alloc"
    } else if k == 5 {
        "posix_memalign"
    } else if k == 6 {
        "strdup"
    } else if k == 7 {
        "strndup"
    } else {
        "strndup"
    }
}

fn alloc_function_count_exec() -> (r: usize)
    ensures
        r == alloc_function_count(),
{
    8
}

/// Assertion calls.
pub open spec fn assert_function(k: int) -> &'static str {
    if k == 0 {
        "NIRAPOD_ASSERT"
    } else if k == 1 {
        "NIRAPOD_STATIC_ASSERT"
    } else if k == 2 {
        "assert"
    } else if k == 3 {
        "static_assert"
    } else if k == 4 {
        "NRF_ASSERT"
    } else if k == 5 {
        "__ASSERT"
    } else if k == 6 {
        "__ASSERT_NO_MSG"
    } else {
        "__ASSERT_NO_MSG"
    }
}

/// Number of entries of [`assert_function`].
pub open spec fn assert_function_count() -> int {
    7
}

fn assert_function_exec(k: usize) -> (r: &'static str)
    ensures
        r == assert_function(k as int),
{
    if k == 0 {
        "NIRAPOD_ASSERT"
    } else if k == 1 {
        "NIRAPOD_STATIC_ASSERT"
    } else if k == 2 {
        "assert"
    } else if k == 3 {
        "static_assert"
    } else if k == 4 {
        "NRF_ASSERT"
    } else if k == 5 {
        "__ASSERT"
    } else if k == 6 {
        "__ASSERT_NO_MSG"
    } else {
        "__ASSERT_NO_MSG"
    }
}

fn assert_function_count_exec() -> (r: usize)
    ensures
        r == assert_function_count(),
{
    7
}

/// Macros the macro check leaves alone.
pub open spec fn exempt_macro_name(k: int) -> &'static str {
    if k == 0 {
        "NIRAPOD_ASSERT"
    } else if k == 1 {
        "NIRAPOD_STATIC_ASSERT"
    } else if k == 2 {
        "NRF_ASSERT"
    } else if k == 3 {
        "__ASSERT"
    } else if k == 4 {
        "__ASSERT_NO_MSG"
    } else if k == 5 {
        "LOG_MODULE_REGISTER"
    } else if k == 6 {
        "LOG_MODULE_DECLARE"
    } else if k == 7 {
        "BUILD_ASSERT"
    } else if k == 8 {
        "STATIC_ASSERT"
    } else if k == 9 {
        "IS_ENABLED"
    } else if k == 10 {
        "COND_CODE_1"
    } else if k == 11 {
        "COND_CODE_0"
    } else if k == 12 {
        "DT_CHOSEN"
    } else if k == 13 {
        "DT_NODELABEL"
    } else if k == 14 {
        "DT_PROP"
    } else {
        "DT_PROP"
    }
}

/// Number of entries of [`exempt_macro_name`].
pub open spec fn exempt_macro_name_count() -> int {
    15
}

fn exempt_macro_name_exec(k: usize) -> (r: &'static str)
    ensures
        r == exempt_macro_name(k as int),
{
    if k == 0 {
        "NIRAPOD_ASSERT"
    } else if k == 1 {
        "NIRAPOD_STATIC_ASSERT"
    } else if k == 2 {
        "NRF_ASSERT"
    } else if k == 3 {
        "__ASSERT"
    } else if k == 4 {
        "__ASSERT_NO_MSG"
    } else if k == 5 {
        "LOG_MODULE_REGISTER"
    } else if k == 6 {
        "LOG_MODULE_DECLARE"
    } else if k == 7 {
        "BUILD_ASSERT"
    } else if k == 8 {
        "STATIC_ASSERT"
    } else if k == 9 {
        "IS_ENABLED"
    } else if k == 10 {
        "COND_CODE_1"
    } else if k == 11 {
        "COND_CODE_0"
    } else if k == 12 {
        "DT_CHOSEN"
    } else if k == 13 {
        "DT_NODELABEL"
    } else if k == 14 {
        "DT_PROP"
    } else {
        "DT_PROP"
    }
}

fn exempt_macro_name_count_exec() -> (r: usize)
    ensures
        r == exempt_macro_name_count(),
{
    15
}

/// Words that document a loop bound.
pub open spec fn bound_word(k: int) -> &'static str {
    if k == 0 {
        "max"
    } else if k == 1 {
        "bound"
    } else if k == 2 {
        "limit"
    } else if k == 3 {
        "iter"
    } else if k == 4 {
        "upper"
    } else if k == 5 {
        "cap"
    } else if k == 6 {
        "at most"
    } else if k == 7 {
        "ceil"
    } else {
        "ceil"
    }
}

/// Number of entries of [`bound_word`].
pub open spec fn bound_word_count() -> int {
    8
}

fn bound_word_exec(k: usize) -> (r: &'static str)
    ensures
        r == bound_word(k as int),
{
    if k == 0 {
        "max"
    } else if k == 1 {
        "bound"
    } else if k == 2 {
        "limit"
    } else if k == 3 {
        "iter"
    } else if k == 4 {
        "upper"
    } else if k == 5 {
        "cap"
    } else if k == 6 {
        "at most"
    } else if k == 7 {
        "ceil"
    } else {
        "ceil"
    }
}

fn bound_word_count_exec() -> (r: usize)
    ensures
        r == bound_word_count(),
{
    8
}

/// The call target is a non-local jump.
pub open spec fn is_setjmp(x: Seq<u8>) -> bool {
    exists|k: int| 0 <= k < setjmp_function_count() && x == #[trigger] setjmp_function(k).spec_bytes()
}

/// Whether [`is_setjmp`] holds.
pub fn is_setjmp_exec(x: &[u8]) -> (r: bool)
    ensures
        r == is_setjmp(x@),
{
    let mut k: usize = 0;
    while k < setjmp_function_count_exec()
        invariant
            k <= setjmp_function_count(),
            forall|m: int| 0 <= m < k ==> x@ != #[trigger] setjmp_function(m).spec_bytes(),
        decreases setjmp_function_count() - k,
    {
        let w = setjmp_function_exec(k);
        if bytes_eq(x, w.as_bytes()) {
            return true;
        }
        k = k + 1;
    }
    false
}

/// The call target allocates dynamically.
pub open spec fn is_alloc(x: Seq<u8>) -> bool {
    exists|k: int| 0 <= k < alloc_function_count() && x == #[trigger] alloc_function(k).spec_bytes()
}

/// Whether [`is_alloc`] holds.
pub fn is_alloc_exec(x: &[u8]) -> (r: bool)
    ensures
        r == is_alloc(x@),
{
    let mut k: usize = 0;
    while k < alloc_function_count_exec()
        invariant
            k <= alloc_function_count(),
            forall|m: int| 0 <= m < k ==> x@ != #[trigger] alloc_function(m).spec_bytes(),
        decreases alloc_function_count() - k,
    {
        let w = alloc_function_exec(k);
        if bytes_eq(x, w.as_bytes()) {
            return true;
        }
        k = k + 1;
    }
    false
}

/// The call target is an assertion.
pub open spec fn is_assert_call(x: Seq<u8>) -> bool {
    exists|k: int| 0 <= k < assert_function_count() && x == #[trigger] assert_function(k).spec_bytes()
}

/// Whether [`is_assert_call`] holds.
pub fn is_assert_call_exec(x: &[u8]) -> (r: bool)
    ensures
        r == is_assert_call(x@),
{
    let mut k: usize = 0;
    while k < assert_function_count_exec()
        invariant
            k <= assert_function_count(),
            forall|m: int| 0 <= m < k ==> x@ != #[trigger] assert_function(m).spec_bytes(),
        decreases assert_function_count() - k,
    {
        let w = assert_function_exec(k);
        if bytes_eq(x, w.as_bytes()) {
            return true;
        }
        k = k + 1;
    }
    false
}

/// The macro name is on the exempt list.
pub open spec fn is_exempt_listed(x: Seq<u8>) -> bool {
    exists|k: int| 0 <= k < exempt_macro_name_count() && x == #[trigger] exempt_macro_name(k).spec_bytes()
}

/// Whether [`is_exempt_listed`] holds.
pub fn is_exempt_listed_exec(x: &[u8]) -> (r: bool)
    ensures
        r == is_exempt_listed(x@),
{
    let mut k: usize = 0;
    while k < exempt_macro_name_count_exec()
        invariant
            k <= exempt_macro_name_count(),
            forall|m: int| 0 <= m < k ==> x@ != #[trigger] exempt_macro_name(m).spec_bytes(),
        decreases exempt_macro_name_count() - k,
    {
        let w = exempt_macro_name_exec(k);
        if bytes_eq(x, w.as_bytes()) {
            return true;
        }
        k = k + 1;
    }
    false
}


/// A text mentions a loop bound: a bound word or a digit.
pub open spec fn mentions_bound(x: Seq<u8>) -> bool {
    let l = seq_lower(x);
    (exists|k: int| 0 <= k < bound_word_count() && #[trigger] seq_contains(l, bound_word(k).spec_bytes()))
        || (exists|k: int| 0 <= k < l.len() && is_ascii_digit(#[trigger] l[k]))
}

fn has_digit_exec(x: &[u8]) -> (r: bool)
    ensures
        r == (exists|k: int| 0 <= k < x@.len() && is_ascii_digit(#[trigger] x@[k])),
{
    let mut k: usize = 0;
    while k < x.len()
        invariant
            k <= x@.len(),
            forall|m: int| 0 <= m < k ==> !is_ascii_digit(#[trigger] x@[m]),
        decreases x@.len() - k,
    {
        if 48 <= x[k] && x[k] <= 57 {
            assert(is_ascii_digit(x@[k as int]));
            return true;
        }
        k = k + 1;
    }
    false
}

/// Whether a text mentions a loop bound.
pub fn mentions_bound_exec(x: &[u8]) -> (r: bool)
    ensures
        r == mentions_bound(x@),
{
    let l = to_lower(x);
    let mut k: usize = 0;
    while k < bound_word_count_exec()
        invariant
            k <= bound_word_count(),
            l@ == seq_lower(x@),
            forall|m: int| 0 <= m < k ==> !#[trigger] seq_contains(l@, bound_word(m).spec_bytes()),
        decreases bound_word_count() - k,
    {
        let w = bound_word_exec(k);
        if contains(l.as_slice(), w.as_bytes()) {
            assert(seq_contains(l@, bound_word(k as int).spec_bytes()));
            return true;
        }
        k = k + 1;
    }
    has_digit_exec(l.as_slice())
}

/// Name of a function definition: the first identifier of its declarator (`function_name`).
pub open spec fn fn_name(src: Seq<u8>, t: Seq<NodeView>, f: int) -> Option<Seq<u8>> {
    match child_by_field(t, f, "declarator".spec_bytes()) {
        Some(d) => ident_in(src, t, d as int, t[d as int].end as int),
        None => None,
    }
}

/// Name of function definition `f`.
pub fn fn_name_exec(ctx: &FileContext, f: usize) -> (r: Option<Vec<u8>>)
    requires
        ctx.wf(),
        f < ctx.tree@.len(),
    ensures
        r matches Some(v) ==> fn_name(ctx.source@, ctx.tree@, f as int) == Some(v@),
        r is None ==> fn_name(ctx.source@, ctx.tree@, f as int) is None,
{
    assert(node_wf(ctx.tree@, f as int));
    match ctx.tree.child_by_field(f, "declarator".as_bytes()) {
        Some(d) => ident_in_exec(ctx, d),
        None => None,
    }
}

/// One line of the code-line count: the count and whether a block comment is open.
pub open spec fn count_step(l: Seq<u8>, c: nat, in_block: bool) -> (nat, bool) {
    let t = seq_trim(l);
    if in_block {
        (c, !seq_contains(t, "*/".spec_bytes()))
    } else if seq_starts_with(t, "/*".spec_bytes()) {
        (c, !seq_contains(t, "*/".spec_bytes()))
    } else if t.len() == 0 || seq_starts_with(t, "//".spec_bytes()) || t == "{".spec_bytes() || t
        == "}".spec_bytes() {
        (c, false)
    } else {
        (c + 1, false)
    }
}

/// Code lines among `a..i`, with the block-comment state after them.
pub open spec fn count_from(lb: Seq<Seq<u8>>, a: int, i: int) -> (nat, bool)
    decreases i - a,
{
    if i <= a {
        (0, false)
    } else {
        let (c, b) = count_from(lb, a, i - 1);
        count_step(line_or_empty(lb, i - 1), c, b)
    }
}

/// Non-blank, non-comment, non-brace lines from row `s` to row `e`
/// (at most the last line) (`count_code_lines`).
pub open spec fn count_code_lines(lb: Seq<Seq<u8>>, s: usize, e: usize) -> nat {
    count_from(lb, s as int, crate::memory_pass::checks::clamp_row(e, lb.len() as int) + 1).0
}

proof fn lemma_count_bound(lb: Seq<Seq<u8>>, a: int, i: int)
    ensures
        count_from(lb, a, i).0 <= if i > a {
            i - a
        } else {
            0
        },
    decreases i - a,
{
    if i > a {
        lemma_count_bound(lb, a, i - 1);
    }
}

proof fn lemma_comment_literals()
    ensures
        "//".spec_bytes().len() == 2 && "//".spec_bytes()[1] == 47u8,
        "/*".spec_bytes().len() == 2 && "/*".spec_bytes()[1] == 42u8,
{
    reveal_strlit("//");
    reveal_strlit("/*");
    vstd::string::is_ascii_spec_bytes("//");
    vstd::string::is_ascii_spec_bytes("/*");
    assert(vstd::string::is_ascii("//") && vstd::string::is_ascii("/*"));
}

/// A `//` comment line that does not close a block comment leaves the count
/// and the block-comment state as they were.
proof fn lemma_comment_step(l: Seq<u8>, c: nat, b: bool)
    requires
        seq_starts_with(seq_trim(l), "//".spec_bytes()),
        !seq_contains(seq_trim(l), "*/".spec_bytes()),
    ensures
        count_step(l, c, b) == (c, b),
{
    lemma_comment_literals();
    let t = seq_trim(l);
    assert(t.subrange(0, 2)[1] == t[1]);
    if seq_starts_with(t, "/*".spec_bytes()) {
        assert(t.subrange(0, 2)[1] == "/*".spec_bytes()[1]);
    }
}

proof fn lemma_count_insert(lb: Seq<Seq<u8>>, a: int, p: int, l: Seq<u8>, i: int)
    requires
        0 <= a <= p <= lb.len(),
        a <= i,
        seq_starts_with(seq_trim(l), "//".spec_bytes()),
        !seq_contains(seq_trim(l), "*/".spec_bytes()),
    ensures
        i <= p ==> count_from(lb.insert(p, l), a, i) == count_from(lb, a, i),
        i > p ==> count_from(lb.insert(p, l), a, i) == count_from(lb, a, i - 1),
    decreases i - a,
{
    let lb2 = lb.insert(p, l);
    if i > a {
        lemma_count_insert(lb, a, p, l, i - 1);
        if i <= p {
            assert(line_or_empty(lb2, i - 1) == line_or_empty(lb, i - 1));
        } else if i == p + 1 {
            assert(line_or_empty(lb2, i - 1) == l);
            let (c, b) = count_from(lb2, a, i - 1);
            lemma_comment_step(l, c, b);
        } else {
            assert(line_or_empty(lb2, i - 1) == line_or_empty(lb, i - 2));
        }
    }
}

/// Inserting a `//` comment line into a row range (one that does not close
/// a block comment) leaves its counted code lines unchanged: comment lines
/// are never code.
pub proof fn lemma_comment_line_not_counted(lb: Seq<Seq<u8>>, s: usize, e: usize, p: int, l: Seq<u8>)
    requires
        s <= p <= e + 1,
        e + 1 < lb.len(),
        e < usize::MAX,
        seq_starts_with(seq_trim(l), "//".spec_bytes()),
        !seq_contains(seq_trim(l), "*/".spec_bytes()),
    ensures
        count_code_lines(lb.insert(p, l), s, (e + 1) as usize) == count_code_lines(lb, s, e),
{
    let e1 = (e + 1) as usize;
    assert(crate::memory_pass::checks::clamp_row(e, lb.len() as int) == e);
    assert(crate::memory_pass::checks::clamp_row(e1, lb.insert(p, l).len() as int) == e + 1);
    lemma_count_insert(lb, s as int, p, l, e + 2);
}

/// Counts the code lines of a row range.
pub fn count_code_lines_exec(ctx: &FileContext, s: usize, e: usize) -> (r: usize)
    requires
        ctx.wf(),
    ensures
        r as nat == count_code_lines(ctx.lb(), s, e),
{
    let n = ctx.line_bytes.len();
    let m = if n > 0 {
        n - 1
    } else {
        0
    };
    let last = if e < m {
        e
    } else {
        m
    };
    let hi = last + 1;
    let mut count: usize = 0;
    let mut in_block = false;
    if s >= hi {
        return 0;
    }
    let mut i = s;
    while i < hi
        invariant
            ctx.wf(),
            n == ctx.line_bytes@.len(),
            s <= i <= hi,
            (count as nat, in_block) == count_from(ctx.lb(), s as int, i as int),
        decreases hi - i,
    {
        proof {
            lemma_count_bound(ctx.lb(), s as int, i as int);
        }
        let l: Vec<u8> = if i < n {
            crate::text::copy_range(ctx.line_bytes[i].as_slice(), 0, ctx.line_bytes[i].len())
        } else {
            Vec::new()
        };
        assert(l@ =~= line_or_empty(ctx.lb(), i as int));
        let t = trim(l.as_slice());
        let ts = t.as_slice();
        if in_block {
            in_block = !contains(ts, "*/".as_bytes());
        } else if starts_with(ts, "/*".as_bytes()) {
            in_block = !contains(ts, "*/".as_bytes());
        } else if t.len() == 0 || starts_with(ts, "//".as_bytes()) || bytes_eq(ts, "{".as_bytes())
            || bytes_eq(ts, "}".as_bytes()) {
        } else {
            count = count + 1;
        }
        i = i + 1;
    }
    count
}

/// Pass 3: NASA/JPL safety checks.
#[derive(Debug, Default, Clone, Copy)]
pub struct NasaPass;

/// Everything the NASA pass reports on a file, in order.
#[verifier::opaque]
pub open spec fn nasa_findings(ctx: &FileContext) -> Seq<DiagnosticView> {
    let role = ctx.role;
    let fns = nodes(ctx, "function_definition".spec_bytes());
    let calls = nodes(ctx, "call_expression".spec_bytes());
    if role == FileRole::ThirdParty || role == FileRole::Asm || role == FileRole::Cmake || role
        == FileRole::Config {
        Seq::empty()
    } else {
        goto_over(ctx, nodes(ctx, "goto_statement".spec_bytes())) + call_rule_over(ctx, calls, false)
            + recursion_over(ctx, fns) + loop_findings(ctx) + call_rule_over(ctx, calls, true)
            + length_over(ctx, fns) + assertions_over(ctx, fns) + macros_over(
            ctx.lb(),
            ctx.lb().len() as int,
            ctx.path@,
            ctx.ls(),
        ) + unchecked_fns(ctx, fns) + globals_over(ctx, nodes(ctx, "declaration".spec_bytes()))
            + mutable_fns(ctx, fns)
    }
}

impl Pass for NasaPass {
    fn name(&self) -> (r: &'static str)
        ensures
            r@ == "nasa"@,
    {
        "nasa"
    }

    fn languages(&self) -> (r: Option<Vec<SourceLanguage>>)
        ensures
            r matches Some(v) && v@ == c_cpp(),
    {
        Some(c_cpp_languages())
    }

    fn run(&self, ctx: &FileContext) -> (r: Vec<Diagnostic>)
        ensures
            diags_view(r@) == nasa_findings(ctx),
    {
        proof {
            reveal(nasa_findings);
        }
        let mut out: Vec<Diagnostic> = Vec::new();
        let role = ctx.role;
        if role == FileRole::ThirdParty || role == FileRole::Asm || role == FileRole::Cmake || role
            == FileRole::Config {
            assert(diags_view(out@) =~= nasa_findings(ctx));
            return out;
        }
        assert(diags_view(out@) =~= Seq::<DiagnosticView>::empty());
        check_goto(ctx, &mut out);
        check_calls(ctx, false, &mut out);
        check_recursion(ctx, &mut out);
        check_loop_bounds(ctx, &mut out);
        check_calls(ctx, true, &mut out);
        check_function_length(ctx, &mut out);
        check_assertions(ctx, &mut out);
        check_macros(ctx, &mut out);
        check_unchecked_returns(ctx, &mut out);
        check_globals(ctx, &mut out);
        check_mutable_where_const(ctx, &mut out);
        assert(diags_view(out@) =~= nasa_findings(ctx));
        out
    }
}

} // verus!
