//! Line and text helpers of the memory-safety checks.

use vstd::prelude::*;
use vstd::string::StringSliceAdditionalSpecFns;

use crate::ast_pass::docs::line_or_empty;
use crate::lex_pass::{doc_open_before, doc_open_step, in_doc_comment};
use crate::text::{
    contains, copy_range, find, first_occurrence, is_ascii_alpha, is_ident_byte, seq_contains,
    seq_lower, seq_starts_with, seq_trim, starts_with, to_lower, trim, vv,
};

verus! {

/// `s` up to the first occurrence of `pat`, or all of `s`.
pub open spec fn before_first(s: Seq<u8>, pat: Seq<u8>) -> Seq<u8> {
    match first_occurrence(s, pat) {
        Some(i) => s.subrange(0, i),
        None => s,
    }
}

/// The code part of a line: before any `//`, then before any `/*` (`code_portion`).
pub open spec fn code_portion(l: Seq<u8>) -> Seq<u8> {
    before_first(before_first(l, "//".spec_bytes()), "/*".spec_bytes())
}

/// Line `i` is a comment line: it starts like a comment, or lies in a doc comment.
pub open spec fn is_comment_line(lb: Seq<Seq<u8>>, i: int) -> bool {
    let t = seq_trim(line_or_empty(lb, i));
    seq_starts_with(t, "//".spec_bytes()) || seq_starts_with(t, "*".spec_bytes()) || seq_starts_with(
        t,
        "/*".spec_bytes(),
    ) || in_doc_comment(lb, i)
}

/// Text mentions a size-like word.
pub open spec fn mentions_size(x: Seq<u8>) -> bool {
    let l = seq_lower(x);
    seq_contains(l, "size".spec_bytes()) || seq_contains(l, "len".spec_bytes()) || seq_contains(
        l,
        "length".spec_bytes(),
    ) || seq_contains(l, "count".spec_bytes()) || seq_contains(l, "num".spec_bytes())
        || seq_contains(l, "capacity".spec_bytes())
}

/// Byte strings joined with `sep` between consecutive parts.
pub open spec fn join_b(parts: Seq<Seq<u8>>, sep: Seq<u8>) -> Seq<u8>
    decreases parts.len(),
{
    if parts.len() == 0 {
        Seq::empty()
    } else if parts.len() == 1 {
        parts[0]
    } else {
        join_b(parts.drop_last(), sep) + sep + parts.last()
    }
}

/// `s` up to the first `pat`.
pub fn before_first_exec(s: &[u8], pat: &[u8]) -> (r: Vec<u8>)
    ensures
        r@ == before_first(s@, pat@),
{
    proof {
        crate::text::lemma_first_occurrence_from_some(s@, pat@, 0);
    }
    match find(s, pat) {
        Some(i) => copy_range(s, 0, i),
        None => copy_range(s, 0, s.len()),
    }
}

/// The code part of a line.
pub fn code_portion_exec(l: &[u8]) -> (r: Vec<u8>)
    ensures
        r@ == code_portion(l@),
{
    let a = before_first_exec(l, "//".as_bytes());
    before_first_exec(a.as_slice(), "/*".as_bytes())
}

/// Whether a text mentions a size-like word.
pub fn mentions_size_exec(x: &[u8]) -> (r: bool)
    ensures
        r == mentions_size(x@),
{
    let l = to_lower(x);
    let s = l.as_slice();
    contains(s, "size".as_bytes()) || contains(s, "len".as_bytes()) || contains(s, "length".as_bytes())
        || contains(s, "count".as_bytes()) || contains(s, "num".as_bytes()) || contains(
        s,
        "capacity".as_bytes(),
    )
}

/// Which lines are comment lines, one flag per line.
pub fn comment_flags(lines: &Vec<Vec<u8>>) -> (r: Vec<bool>)
    ensures
        r@.len() == lines@.len(),
        forall|i: int| 0 <= i < lines@.len() ==> #[trigger] r@[i] == is_comment_line(vv(lines@), i),
{
    let ghost lb = vv(lines@);
    let n = lines.len();
    let mut out: Vec<bool> = Vec::new();
    let mut open = false;
    let mut i: usize = 0;
    while i < n
        invariant
            n == lines@.len(),
            lb == vv(lines@),
            i <= n,
            out@.len() == i,
            open == doc_open_before(lb, i as int),
            forall|k: int| 0 <= k < i ==> #[trigger] out@[k] == is_comment_line(lb, k),
        decreases n - i,
    {
        assert(lb[i as int] == lines@[i as int]@);
        let l = lines[i].as_slice();
        let (in_doc, next) = doc_open_step(open, l);
        let t = trim(l);
        let ts = t.as_slice();
        let c = starts_with(ts, "//".as_bytes()) || starts_with(ts, "*".as_bytes()) || starts_with(
            ts,
            "/*".as_bytes(),
        ) || in_doc;
        assert(c == is_comment_line(lb, i as int));
        out.push(c);
        open = next;
        i = i + 1;
    }
    out
}

/// Appends `part` to a join in progress.
pub fn join_push(acc: &mut Vec<u8>, first: bool, sep: &[u8], part: &[u8])
    ensures
        first ==> final(acc)@ == old(acc)@ + part@,
        !first ==> final(acc)@ == old(acc)@ + sep@ + part@,
{
    if !first {
        let mut k: usize = 0;
        let ghost a0 = acc@;
        while k < sep.len()
            invariant
                k <= sep@.len(),
                acc@ == a0 + sep@.subrange(0, k as int),
            decreases sep@.len() - k,
        {
            acc.push(sep[k]);
            k = k + 1;
            assert(acc@ =~= a0 + sep@.subrange(0, k as int));
        }
        assert(sep@.subrange(0, sep@.len() as int) =~= sep@);
    }
    let ghost a1 = acc@;
    let mut k: usize = 0;
    while k < part.len()
        invariant
            k <= part@.len(),
            acc@ == a1 + part@.subrange(0, k as int),
        decreases part@.len() - k,
    {
        acc.push(part[k]);
        k = k + 1;
        assert(acc@ =~= a1 + part@.subrange(0, k as int));
    }
    assert(part@.subrange(0, part@.len() as int) =~= part@);
}

/// Start of the run of identifier bytes that ends just before `j`.
pub open spec fn run_start(s: Seq<u8>, j: int) -> int
    decreases j,
{
    if 0 < j <= s.len() && is_ident_byte(s[j - 1]) {
        run_start(s, j - 1)
    } else {
        j
    }
}

/// A token that can name a parameter: starts with a letter or `_` and is not
/// a type qualifier or tag keyword.
pub open spec fn is_param_name(tok: Seq<u8>) -> bool {
    &&& tok.len() > 0
    &&& (is_ascii_alpha(tok[0]) || tok[0] == 95)
    &&& tok != "const".spec_bytes()
    &&& tok != "volatile".spec_bytes()
    &&& tok != "restrict".spec_bytes()
    &&& tok != "struct".spec_bytes()
    &&& tok != "class".spec_bytes()
    &&& tok != "enum".spec_bytes()
}

/// The last identifier token of `s[..j]` that can name a parameter.
pub open spec fn last_param_name(s: Seq<u8>, j: int) -> Option<Seq<u8>>
    decreases j,
{
    if j <= 0 || j > s.len() {
        None
    } else if !is_ident_byte(s[j - 1]) {
        last_param_name(s, j - 1)
    } else {
        let a = run_start(s, j);
        if a < 0 || a >= j {
            None
        } else if is_param_name(s.subrange(a, j)) {
            Some(s.subrange(a, j))
        } else {
            last_param_name(s, a)
        }
    }
}

/// Name of a pointer declared by a parameter text: the last name-like token
/// after the last `*` (`pointer_name_from_text`).
pub open spec fn pointer_name(text: Seq<u8>) -> Option<Seq<u8>> {
    match crate::paths::last_index_of(text, 42, text.len() as int) {
        None => None,
        Some(i) => {
            let tail = text.subrange(i + 1, text.len() as int);
            last_param_name(tail, tail.len() as int)
        },
    }
}

proof fn lemma_run_start(s: Seq<u8>, j: int)
    requires
        0 <= j <= s.len(),
    ensures
        0 <= run_start(s, j) <= j,
        forall|k: int| run_start(s, j) <= k < j ==> is_ident_byte(#[trigger] s[k]),
    decreases j,
{
    if 0 < j <= s.len() && is_ident_byte(s[j - 1]) {
        lemma_run_start(s, j - 1);
    }
}

fn is_ident_exec(b: u8) -> (r: bool)
    ensures
        r == is_ident_byte(b),
{
    (48 <= b && b <= 57) || (65 <= b && b <= 90) || (97 <= b && b <= 122) || b == 95
}

fn is_param_name_exec(tok: &[u8]) -> (r: bool)
    ensures
        r == is_param_name(tok@),
{
    if tok.len() == 0 {
        return false;
    }
    let b = tok[0];
    if !((65 <= b && b <= 90) || (97 <= b && b <= 122) || b == 95) {
        return false;
    }
    !(crate::text::bytes_eq(tok, "const".as_bytes()) || crate::text::bytes_eq(tok, "volatile".as_bytes())
        || crate::text::bytes_eq(tok, "restrict".as_bytes()) || crate::text::bytes_eq(
        tok,
        "struct".as_bytes(),
    ) || crate::text::bytes_eq(tok, "class".as_bytes()) || crate::text::bytes_eq(
        tok,
        "enum".as_bytes(),
    ))
}

/// Name of the pointer a parameter text declares.
pub fn pointer_name_exec(text: &[u8]) -> (r: Option<Vec<u8>>)
    ensures
        r matches Some(v) ==> pointer_name(text@) == Some(v@),
        r is None ==> pointer_name(text@) is None,
{
    let i = match crate::paths::last_index_exec(text, 42) {
        None => {
            return None;
        },
        Some(i) => i,
    };
    let n = text.len();
    assert(i < n);
    let tail = copy_range(text, i + 1, n);
    assert(tail@ == text@.subrange(i + 1, text@.len() as int));
    let ghost tv = tail@;
    let mut j = tail.len();
    while j > 0
        invariant
            tv == tail@,
            j <= tv.len(),
            pointer_name(text@) == last_param_name(tv, tv.len() as int),
            last_param_name(tv, tv.len() as int) == last_param_name(tv, j as int),
        decreases j,
    {
        if !is_ident_exec(tail[j - 1]) {
            j = j - 1;
        } else {
            let mut a = j;
            while a > 0 && is_ident_exec(tail[a - 1])
                invariant
                    tv == tail@,
                    a <= j <= tv.len(),
                    run_start(tv, j as int) == run_start(tv, a as int),
                decreases a,
            {
                a = a - 1;
            }
            proof {
                lemma_run_start(tv, j as int);
            }
            let tok = copy_range(tail.as_slice(), a, j);
            if is_param_name_exec(tok.as_slice()) {
                return Some(tok);
            }
            j = a;
        }
    }
    None
}

/// Byte strings joined with `sep`.
pub fn join_b_exec(parts: &Vec<Vec<u8>>, sep: &[u8]) -> (r: Vec<u8>)
    ensures
        r@ == join_b(vv(parts@), sep@),
{
    let ghost pv = vv(parts@);
    let mut acc: Vec<u8> = Vec::new();
    let mut k: usize = 0;
    while k < parts.len()
        invariant
            pv == vv(parts@),
            k <= parts@.len(),
            acc@ == join_b(pv.subrange(0, k as int), sep@),
        decreases parts@.len() - k,
    {
        let ghost prev = pv.subrange(0, k as int);
        join_push(&mut acc, k == 0, sep, parts[k].as_slice());
        k = k + 1;
        let ghost cur = pv.subrange(0, k as int);
        assert(cur.drop_last() =~= prev);
        assert(cur.last() == parts@[k - 1]@);
        if k == 1 {
            assert(prev =~= Seq::<Seq<u8>>::empty());
        }
        assert(acc@ =~= join_b(cur, sep@));
    }
    assert(pv.subrange(0, parts@.len() as int) =~= pv);
    acc
}

/// `a`, `b` and `c` one after another.
pub fn cat3_b(a: &[u8], b: &[u8], c: &[u8]) -> (r: Vec<u8>)
    ensures
        r@ == a@ + b@ + c@,
{
    let mut v = copy_range(a, 0, a.len());
    assert(v@ =~= a@);
    join_push(&mut v, true, b, b);
    join_push(&mut v, true, c, c);
    v
}

} // verus!
