//! Documentation style checks: generic briefs and crypto docs that do not
//! name their hardware backend.

use vstd::prelude::*;
use vstd::string::StringSliceAdditionalSpecFns;

use crate::ast_pass::docs::{first_line_has, tag_content, tag_content_exec};
use crate::context::FileContext;
use crate::diagnostic::{chars_of, concat3, emit, finding, line_span, line_span_of, text_of};
use crate::memory_pass::lines::run_start;
use crate::pass::{c_cpp, c_cpp_languages, Pass};
use crate::rules::RuleId;
use crate::text::{
    bytes_eq, contains, copy_range, find, first_occurrence, is_ascii_alpha, is_ident_byte,
    seq_contains, seq_lower, seq_starts_with, seq_trim, starts_with, to_lower, trim, trim_start, vv,
};
use crate::types::{diags_view, Diagnostic, DiagnosticView, SourceLanguage};
use crate::words::{split_words, strip_trailing, strip_trailing_exec, words};

verus! {

/// Briefs, and words of briefs, that say nothing specific.
pub open spec fn style_generic(k: int) -> &'static str {
    if k == 0 {
        "driver"
    } else if k == 1 {
        "module"
    } else if k == 2 {
        "header"
    } else if k == 3 {
        "source"
    } else if k == 4 {
        "file"
    } else if k == 5 {
        "main"
    } else if k == 6 {
        "implementation"
    } else if k == 7 {
        "utility"
    } else if k == 8 {
        "helper"
    } else if k == 9 {
        "wrapper"
    } else if k == 10 {
        "interface"
    } else if k == 11 {
        "manager"
    } else if k == 12 {
        "handler"
    } else if k == 13 {
        "controller"
    } else if k == 14 {
        "service"
    } else if k == 15 {
        "provider"
    } else if k == 16 {
        "crypto driver"
    } else if k == 17 {
        "aes driver"
    } else if k == 18 {
        "parser"
    } else {
        "parser"
    }
}

/// Number of entries of [`style_generic`].
pub open spec fn style_generic_count() -> int {
    19
}

fn style_generic_exec(k: usize) -> (r: &'static str)
    ensures
        r == style_generic(k as int),
{
    if k == 0 {
        "driver"
    } else if k == 1 {
        "module"
    } else if k == 2 {
        "header"
    } else if k == 3 {
        "source"
    } else if k == 4 {
        "file"
    } else if k == 5 {
        "main"
    } else if k == 6 {
        "implementation"
    } else if k == 7 {
        "utility"
    } else if k == 8 {
        "helper"
    } else if k == 9 {
        "wrapper"
    } else if k == 10 {
        "interface"
    } else if k == 11 {
        "manager"
    } else if k == 12 {
        "handler"
    } else if k == 13 {
        "controller"
    } else if k == 14 {
        "service"
    } else if k == 15 {
        "provider"
    } else if k == 16 {
        "crypto driver"
    } else if k == 17 {
        "aes driver"
    } else if k == 18 {
        "parser"
    } else {
        "parser"
    }
}

fn style_generic_count_exec() -> (r: usize)
    ensures
        r == style_generic_count(),
{
    19
}

/// Substrings that mark a function name as cryptographic.
pub open spec fn crypto_name_hint(k: int) -> &'static str {
    if k == 0 {
        "aes"
    } else if k == 1 {
        "sha"
    } else if k == 2 {
        "crypto"
    } else if k == 3 {
        "cc310"
    } else if k == 4 {
        "cc312"
    } else if k == 5 {
        "ecdsa"
    } else if k == 6 {
        "ecdh"
    } else if k == 7 {
        "mbedtls"
    } else if k == 8 {
        "nrf_crypto"
    } else if k == 9 {
        "esp_aes"
    } else {
        "esp_aes"
    }
}

/// Number of entries of [`crypto_name_hint`].
pub open spec fn crypto_name_hint_count() -> int {
    10
}

fn crypto_name_hint_exec(k: usize) -> (r: &'static str)
    ensures
        r == crypto_name_hint(k as int),
{
    if k == 0 {
        "aes"
    } else if k == 1 {
        "sha"
    } else if k == 2 {
        "crypto"
    } else if k == 3 {
        "cc310"
    } else if k == 4 {
        "cc312"
    } else if k == 5 {
        "ecdsa"
    } else if k == 6 {
        "ecdh"
    } else if k == 7 {
        "mbedtls"
    } else if k == 8 {
        "nrf_crypto"
    } else if k == 9 {
        "esp_aes"
    } else {
        "esp_aes"
    }
}

fn crypto_name_hint_count_exec() -> (r: usize)
    ensures
        r == crypto_name_hint_count(),
{
    10
}

/// Names of crypto hardware backends.
pub open spec fn hardware_word(k: int) -> &'static str {
    if k == 0 {
        "cc310"
    } else if k == 1 {
        "cc312"
    } else if k == 2 {
        "esp32"
    } else {
        "esp32"
    }
}

/// Number of entries of [`hardware_word`].
pub open spec fn hardware_word_count() -> int {
    3
}

fn hardware_word_exec(k: usize) -> (r: &'static str)
    ensures
        r == hardware_word(k as int),
{
    if k == 0 {
        "cc310"
    } else if k == 1 {
        "cc312"
    } else if k == 2 {
        "esp32"
    } else {
        "esp32"
    }
}

fn hardware_word_count_exec() -> (r: usize)
    ensures
        r == hardware_word_count(),
{
    3
}


/// Doc blocks found by a scan of lines `0..i`, and the start of a block still open.
pub open spec fn blocks_scan(lb: Seq<Seq<u8>>, i: int) -> (Seq<(int, int)>, Option<int>)
    decreases i,
{
    if i <= 0 {
        (Seq::empty(), None)
    } else {
        let (bs, st) = blocks_scan(lb, i - 1);
        let j = i - 1;
        let st2 = if st is None && seq_contains(lb[j], "/**".spec_bytes()) {
            Some(j)
        } else {
            st
        };
        match st2 {
            Some(s) => if seq_contains(lb[j], "*/".spec_bytes()) {
                (bs.push((s, j)), None)
            } else {
                (bs, st2)
            },
            None => (bs, None),
        }
    }
}

/// The doc blocks of a file, in order (`doc_blocks`).
pub open spec fn doc_blocks(lb: Seq<Seq<u8>>) -> Seq<(int, int)> {
    blocks_scan(lb, lb.len() as int).0
}

/// The text equals one of the generic entries.
pub open spec fn is_style_generic(x: Seq<u8>) -> bool {
    exists|g: int| 0 <= g < style_generic_count() && x == #[trigger] style_generic(g).spec_bytes()
}

/// A brief that says nothing specific (the style pass's `is_generic_brief`).
pub open spec fn style_generic_brief(brief: Seq<u8>) -> bool {
    let nt = seq_lower(strip_trailing(seq_trim(brief), 46u8));
    let w = words(nt);
    if w.len() == 0 {
        false
    } else if w.len() == 1 {
        true
    } else {
        (w.len() <= 3 && exists|k: int| 0 <= k < w.len() && #[trigger] is_style_generic(w[k]))
            || is_style_generic(nt)
    }
}

/// The block `s..=e` mentions `@file` on some line.
pub open spec fn block_mentions_file(lb: Seq<Seq<u8>>, s: int, e: int) -> bool {
    exists|k: int| s <= k <= e && #[trigger] seq_contains(lb[k], "@file".spec_bytes())
}

/// A generic brief in a doc block other than the file header.
pub open spec fn brief_at(lb: Seq<Seq<u8>>, s: int, e: int, file: Seq<char>, ls: Seq<Seq<char>>) -> Seq<DiagnosticView> {
    let brief = tag_content(lb, s, e, "@brief".spec_bytes());
    if block_mentions_file(lb, s, e) || brief.len() == 0 || !style_generic_brief(brief) {
        Seq::empty()
    } else {
        let line = match first_line_has(lb, s, e, "@brief".spec_bytes()) {
            Some(l) => l,
            None => s,
        };
        seq![
            finding(
                RuleId::Style003,
                line_span_of(file, (line + 1) as usize, ls),
                "@brief text is too generic: \""@ + chars_of(brief) + "\"."@,
                "The brief should describe behavior, not only the kind of declaration."@,
                "Rewrite @brief as one direct sentence about what this API does."@,
            ),
        ]
    }
}

/// Findings of [`brief_at`] over the given blocks (`check_generic_briefs`).
pub open spec fn briefs_over(lb: Seq<Seq<u8>>, bs: Seq<(int, int)>, file: Seq<char>, ls: Seq<Seq<char>>) -> Seq<
    DiagnosticView,
>
    decreases bs.len(),
{
    if bs.len() == 0 {
        Seq::empty()
    } else {
        briefs_over(lb, bs.drop_last(), file, ls) + brief_at(lb, bs.last().0, bs.last().1, file, ls)
    }
}

/// First line from `i` on that is not blank or a line comment, trimmed (`next_signature_line`).
pub open spec fn next_signature(lb: Seq<Seq<u8>>, i: int) -> Option<Seq<u8>>
    decreases lb.len() - i,
{
    if i < 0 || i >= lb.len() {
        None
    } else {
        let t = seq_trim(lb[i]);
        if t.len() == 0 || seq_starts_with(t, "//".spec_bytes()) {
            next_signature(lb, i + 1)
        } else {
            Some(t)
        }
    }
}

/// A token that starts like a name.
pub open spec fn starts_name(tok: Seq<u8>) -> bool {
    tok.len() > 0 && (is_ascii_alpha(tok[0]) || tok[0] == 95)
}

/// The last name-like identifier token of `s[..j]`.
pub open spec fn last_name_token(s: Seq<u8>, j: int) -> Option<Seq<u8>>
    decreases j,
{
    if j <= 0 || j > s.len() {
        None
    } else if !is_ident_byte(s[j - 1]) {
        last_name_token(s, j - 1)
    } else {
        let a = run_start(s, j);
        if a < 0 || a >= j {
            None
        } else if starts_name(s.subrange(a, j)) {
            Some(s.subrange(a, j))
        } else {
            last_name_token(s, a)
        }
    }
}

/// The function name of a signature line: the last name before its first `(`.
pub open spec fn signature_name(sig: Seq<u8>) -> Option<Seq<u8>> {
    match first_occurrence(sig, "(".spec_bytes()) {
        Some(o) => last_name_token(sig.subrange(0, o), o),
        None => None,
    }
}

/// A function name that marks the function as cryptographic.
pub open spec fn crypto_named(n: Seq<u8>) -> bool {
    exists|k: int| 0 <= k < crypto_name_hint_count() && #[trigger] seq_contains(
        seq_lower(n),
        crypto_name_hint(k).spec_bytes(),
    )
}

/// The name of the cryptographic function declared after block `..=e`, if any.
pub open spec fn crypto_fn_after(lb: Seq<Seq<u8>>, e: int) -> Option<Seq<u8>> {
    match next_signature(lb, e + 1) {
        None => None,
        Some(sig) => match signature_name(sig) {
            None => None,
            Some(n) => if crypto_named(n) {
                Some(n)
            } else {
                None
            },
        },
    }
}

/// Details naming a hardware backend.
pub open spec fn has_hardware_word(d: Seq<u8>) -> bool {
    exists|k: int| 0 <= k < hardware_word_count() && #[trigger] seq_contains(seq_lower(d), hardware_word(k).spec_bytes())
}

/// A crypto function doc block that names no hardware backend.
pub open spec fn hardware_at(lb: Seq<Seq<u8>>, s: int, e: int, file: Seq<char>, ls: Seq<Seq<char>>) -> Seq<DiagnosticView> {
    match crypto_fn_after(lb, e) {
        None => Seq::empty(),
        Some(name) => if has_hardware_word(tag_content(lb, s, e, "@details".spec_bytes())) {
            Seq::empty()
        } else {
            let line = match first_line_has(lb, s, e, "@details".spec_bytes()) {
                Some(l) => l,
                None => match first_line_has(lb, s, e, "@brief".spec_bytes()) {
                    Some(l) => l,
                    None => s,
                },
            };
            seq![
                finding(
                    RuleId::Style004,
                    line_span_of(file, (line + 1) as usize, ls),
                    "Crypto function '"@ + chars_of(name) + "' documentation does not name the hardware backend."@,
                    "Crypto API docs should state whether they rely on CC310, CC312, or ESP32 hardware."@,
                    "Add an @details line that names the relevant backend, such as CC310 or ESP32."@,
                ),
            ]
        },
    }
}

/// Findings of [`hardware_at`] over the given blocks (`check_crypto_hardware_words`).
pub open spec fn hardware_over(lb: Seq<Seq<u8>>, bs: Seq<(int, int)>, file: Seq<char>, ls: Seq<Seq<char>>) -> Seq<
    DiagnosticView,
>
    decreases bs.len(),
{
    if bs.len() == 0 {
        Seq::empty()
    } else {
        hardware_over(lb, bs.drop_last(), file, ls) + hardware_at(lb, bs.last().0, bs.last().1, file, ls)
    }
}

/// Pass 6: documentation style checks.
#[derive(Debug, Default, Clone, Copy)]
pub struct StylePass;

/// Everything the style pass reports on a file, in order.
#[verifier::opaque]
pub open spec fn style_findings(ctx: &FileContext) -> Seq<DiagnosticView> {
    briefs_over(ctx.lb(), doc_blocks(ctx.lb()), ctx.path@, ctx.ls()) + hardware_over(
        ctx.lb(),
        doc_blocks(ctx.lb()),
        ctx.path@,
        ctx.ls(),
    )
}

fn doc_blocks_exec(lines: &Vec<Vec<u8>>) -> (r: Vec<(usize, usize)>)
    ensures
        r@.len() == doc_blocks(vv(lines@)).len(),
        forall|k: int|
            0 <= k < r@.len() ==> (#[trigger] r@[k]).0 as int == doc_blocks(vv(lines@))[k].0 && r@[k].1 as int
                == doc_blocks(vv(lines@))[k].1 && r@[k].0 <= r@[k].1 < lines@.len(),
{
    let ghost lb = vv(lines@);
    let n = lines.len();
    let mut out: Vec<(usize, usize)> = Vec::new();
    let mut st: Option<usize> = None;
    let mut i: usize = 0;
    while i < n
        invariant
            n == lines@.len(),
            lb == vv(lines@),
            i <= n,
            out@.len() == blocks_scan(lb, i as int).0.len(),
            forall|k: int|
                0 <= k < out@.len() ==> (#[trigger] out@[k]).0 as int == blocks_scan(lb, i as int).0[k].0
                    && out@[k].1 as int == blocks_scan(lb, i as int).0[k].1 && out@[k].0 <= out@[k].1 < n,
            match st {
                Some(s) => blocks_scan(lb, i as int).1 == Some(s as int) && s < i,
                None => blocks_scan(lb, i as int).1 is None,
            },
        decreases n - i,
    {
        assert(lb[i as int] == lines@[i as int]@);
        let l = lines[i].as_slice();
        if st.is_none() && contains(l, "/**".as_bytes()) {
            st = Some(i);
        }
        match st {
            Some(s) => {
                if contains(l, "*/".as_bytes()) {
                    out.push((s, i));
                    st = None;
                }
            },
            None => {},
        }
        i = i + 1;
    }
    out
}

fn is_style_generic_exec(x: &[u8]) -> (r: bool)
    ensures
        r == is_style_generic(x@),
{
    let mut g: usize = 0;
    while g < style_generic_count_exec()
        invariant
            g <= style_generic_count(),
            forall|m: int| 0 <= m < g ==> x@ != #[trigger] style_generic(m).spec_bytes(),
        decreases style_generic_count() - g,
    {
        if bytes_eq(x, style_generic_exec(g).as_bytes()) {
            return true;
        }
        g = g + 1;
    }
    false
}

fn style_generic_brief_exec(brief: &[u8]) -> (r: bool)
    ensures
        r == style_generic_brief(brief@),
{
    let t = trim(brief);
    let d = strip_trailing_exec(t.as_slice(), 46u8);
    let nt = to_lower(d.as_slice());
    let w = split_words(nt.as_slice());
    let ghost ws = vv(w@);
    if w.len() == 0 {
        return false;
    }
    if w.len() == 1 {
        return true;
    }
    if w.len() <= 3 {
        let mut k: usize = 0;
        while k < w.len()
            invariant
                ws == vv(w@),
                ws == words(nt@),
                nt@ == seq_lower(strip_trailing(crate::text::seq_trim(brief@), 46u8)),
                2 <= w@.len() <= 3,
                k <= w@.len(),
                forall|m: int| 0 <= m < k ==> !#[trigger] is_style_generic(ws[m]),
            decreases w@.len() - k,
        {
            assert(ws[k as int] == w@[k as int]@);
            if is_style_generic_exec(w[k].as_slice()) {
                return true;
            }
            k = k + 1;
        }
    }
    is_style_generic_exec(nt.as_slice())
}

fn first_line_has_exec(lines: &Vec<Vec<u8>>, s: usize, e: usize, marker: &[u8]) -> (r: Option<usize>)
    requires
        s <= e < lines@.len(),
    ensures
        r matches Some(k) ==> first_line_has(vv(lines@), s as int, e as int, marker@) == Some(k as int)
            && k <= e,
        r is None ==> first_line_has(vv(lines@), s as int, e as int, marker@) is None,
{
    let ghost lb = vv(lines@);
    let n = lines.len();
    let mut k = s;
    while k <= e
        invariant
            lb == vv(lines@),
            n == lines@.len(),
            s <= k <= e + 1,
            e < n,
            first_line_has(lb, s as int, e as int, marker@) == first_line_has(lb, k as int, e as int, marker@),
        decreases e + 1 - k,
    {
        assert(lb[k as int] == lines@[k as int]@);
        let t = trim_start(lines[k].as_slice());
        if contains(t.as_slice(), marker) {
            return Some(k);
        }
        k = k + 1;
    }
    None
}

fn mentions_file_exec(lines: &Vec<Vec<u8>>, s: usize, e: usize) -> (r: bool)
    requires
        s <= e < lines@.len(),
    ensures
        r == block_mentions_file(vv(lines@), s as int, e as int),
{
    let ghost lb = vv(lines@);
    let n = lines.len();
    let mut k = s;
    while k <= e
        invariant
            lb == vv(lines@),
            n == lines@.len(),
            s <= k <= e + 1,
            e < n,
            forall|m: int| s <= m < k ==> !#[trigger] seq_contains(lb[m], "@file".spec_bytes()),
        decreases e + 1 - k,
    {
        assert(lb[k as int] == lines@[k as int]@);
        if contains(lines[k].as_slice(), "@file".as_bytes()) {
            return true;
        }
        k = k + 1;
    }
    false
}

fn brief_one(ctx: &FileContext, s: usize, e: usize, out: &mut Vec<Diagnostic>)
    requires
        ctx.wf(),
        s <= e < ctx.line_bytes@.len(),
    ensures
        diags_view(final(out)@) == diags_view(old(out)@) + brief_at(ctx.lb(), s as int, e as int, ctx.path@, ctx.ls()),
{
    let ghost start = diags_view(out@);
    let lines = &ctx.line_bytes;
    let brief = tag_content_exec(lines, s, e, "@brief".as_bytes());
    if mentions_file_exec(lines, s, e) || brief.len() == 0 || !style_generic_brief_exec(brief.as_slice()) {
        assert(diags_view(out@) =~= start + brief_at(ctx.lb(), s as int, e as int, ctx.path@, ctx.ls()));
        return;
    }
    let line = match first_line_has_exec(lines, s, e, "@brief".as_bytes()) {
        Some(l) => l,
        None => s,
    };
    let n = lines.len();
    assert(line < n);
    let b = text_of(brief.as_slice());
    emit(
        out,
        RuleId::Style003,
        line_span(ctx.path.as_str(), line + 1, &ctx.lines),
        concat3("@brief text is too generic: \"", b.as_str(), "\"."),
        "The brief should describe behavior, not only the kind of declaration.",
        "Rewrite @brief as one direct sentence about what this API does.".to_owned(),
    );
}

/// Checks doc blocks other than the file header for generic briefs.
pub fn check_generic_briefs(ctx: &FileContext, out: &mut Vec<Diagnostic>)
    requires
        ctx.wf(),
    ensures
        diags_view(final(out)@) == diags_view(old(out)@) + briefs_over(
            ctx.lb(),
            doc_blocks(ctx.lb()),
            ctx.path@,
            ctx.ls(),
        ),
{
    let ghost start = diags_view(out@);
    let bs = doc_blocks_exec(&ctx.line_bytes);
    let ghost bv = doc_blocks(ctx.lb());
    let mut k: usize = 0;
    while k < bs.len()
        invariant
            ctx.wf(),
            bv == doc_blocks(ctx.lb()),
            bs@.len() == bv.len(),
            forall|m: int|
                0 <= m < bs@.len() ==> (#[trigger] bs@[m]).0 as int == bv[m].0 && bs@[m].1 as int == bv[m].1
                    && bs@[m].0 <= bs@[m].1 < ctx.line_bytes@.len(),
            k <= bs@.len(),
            diags_view(out@) == start + briefs_over(ctx.lb(), bv.subrange(0, k as int), ctx.path@, ctx.ls()),
        decreases bs@.len() - k,
    {
        let (s, e) = bs[k];
        assert(bs@[k as int] == (s, e));
        brief_one(ctx, s, e, out);
        let ghost sub = bv.subrange(0, k + 1);
        assert(sub.drop_last() =~= bv.subrange(0, k as int));
        assert(sub.last() == bv[k as int]);
        k = k + 1;
    }
    assert(bv.subrange(0, bs@.len() as int) =~= bv);
}

fn ident_exec(b: u8) -> (r: bool)
    ensures
        r == is_ident_byte(b),
{
    (48 <= b && b <= 57) || (65 <= b && b <= 90) || (97 <= b && b <= 122) || b == 95
}

proof fn lemma_run_start(s: Seq<u8>, j: int)
    requires
        0 <= j <= s.len(),
    ensures
        0 <= run_start(s, j) <= j,
    decreases j,
{
    if 0 < j <= s.len() && is_ident_byte(s[j - 1]) {
        lemma_run_start(s, j - 1);
    }
}

fn last_name_token_exec(s: &[u8]) -> (r: Option<Vec<u8>>)
    ensures
        r matches Some(v) ==> last_name_token(s@, s@.len() as int) == Some(v@),
        r is None ==> last_name_token(s@, s@.len() as int) is None,
{
    let mut j = s.len();
    while j > 0
        invariant
            j <= s@.len(),
            last_name_token(s@, s@.len() as int) == last_name_token(s@, j as int),
        decreases j,
    {
        if !ident_exec(s[j - 1]) {
            j = j - 1;
        } else {
            let mut a = j;
            while a > 0 && ident_exec(s[a - 1])
                invariant
                    a <= j <= s@.len(),
                    run_start(s@, j as int) == run_start(s@, a as int),
                decreases a,
            {
                a = a - 1;
            }
            proof {
                lemma_run_start(s@, j as int);
            }
            let b = s[a];
            if (65 <= b && b <= 90) || (97 <= b && b <= 122) || b == 95 {
                return Some(copy_range(s, a, j));
            }
            j = a;
        }
    }
    None
}

fn crypto_fn_after_exec(ctx: &FileContext, e: usize) -> (r: Option<Vec<u8>>)
    requires
        ctx.wf(),
        e < ctx.line_bytes@.len(),
    ensures
        r matches Some(v) ==> crypto_fn_after(ctx.lb(), e as int) == Some(v@),
        r is None ==> crypto_fn_after(ctx.lb(), e as int) is None,
{
    let ghost lb = ctx.lb();
    let n = ctx.line_bytes.len();
    let mut i = e + 1;
    let mut sig: Option<Vec<u8>> = None;
    while i < n
        invariant
            ctx.wf(),
            lb == ctx.lb(),
            n == lb.len(),
            e + 1 <= i <= n,
            sig is None,
            next_signature(lb, e + 1) == next_signature(lb, i as int),
        decreases n - i,
    {
        assert(lb[i as int] == ctx.line_bytes@[i as int]@);
        let t = trim(ctx.line_bytes[i].as_slice());
        if !(t.len() == 0 || starts_with(t.as_slice(), "//".as_bytes())) {
            return name_in_signature(t);
        }
        i = i + 1;
    }
    None
}

fn name_in_signature(sig: Vec<u8>) -> (r: Option<Vec<u8>>)
    ensures
        r matches Some(v) ==> (match signature_name(sig@) {
            None => None::<Seq<u8>>,
            Some(n) => if crypto_named(n) {
                Some(n)
            } else {
                None::<Seq<u8>>
            },
        }) == Some(v@),
        r is None ==> (match signature_name(sig@) {
            None => None::<Seq<u8>>,
            Some(n) => if crypto_named(n) {
                Some(n)
            } else {
                None::<Seq<u8>>
            },
        }) is None,
{
    proof {
        crate::text::lemma_first_occurrence_from_some(sig@, "(".spec_bytes(), 0);
    }
    let o = match find(sig.as_slice(), "(".as_bytes()) {
        Some(o) => o,
        None => {
            return None;
        },
    };
    let before = copy_range(sig.as_slice(), 0, o);
    assert(before@.len() == o);
    let name = match last_name_token_exec(before.as_slice()) {
        Some(n) => n,
        None => {
            return None;
        },
    };
    let l = to_lower(name.as_slice());
    assert(sig@.subrange(0, o as int) =~= before@);
    assert(signature_name(sig@) == Some(name@));
    let mut k: usize = 0;
    while k < crypto_name_hint_count_exec()
        invariant
            k <= crypto_name_hint_count(),
            l@ == seq_lower(name@),
            signature_name(sig@) == Some(name@),
            forall|m: int| 0 <= m < k ==> !#[trigger] seq_contains(l@, crypto_name_hint(m).spec_bytes()),
        decreases crypto_name_hint_count() - k,
    {
        if contains(l.as_slice(), crypto_name_hint_exec(k).as_bytes()) {
            assert(seq_contains(seq_lower(name@), crypto_name_hint(k as int).spec_bytes()));
            assert(crypto_named(name@));
            return Some(name);
        }
        k = k + 1;
    }
    None
}

fn has_hardware_word_exec(d: &[u8]) -> (r: bool)
    ensures
        r == has_hardware_word(d@),
{
    let l = to_lower(d);
    let mut k: usize = 0;
    while k < hardware_word_count_exec()
        invariant
            k <= hardware_word_count(),
            l@ == seq_lower(d@),
            forall|m: int| 0 <= m < k ==> !#[trigger] seq_contains(l@, hardware_word(m).spec_bytes()),
        decreases hardware_word_count() - k,
    {
        if contains(l.as_slice(), hardware_word_exec(k).as_bytes()) {
            assert(seq_contains(l@, hardware_word(k as int).spec_bytes()));
            return true;
        }
        k = k + 1;
    }
    false
}

fn hardware_one(ctx: &FileContext, s: usize, e: usize, out: &mut Vec<Diagnostic>)
    requires
        ctx.wf(),
        s <= e < ctx.line_bytes@.len(),
    ensures
        diags_view(final(out)@) == diags_view(old(out)@) + hardware_at(ctx.lb(), s as int, e as int, ctx.path@, ctx.ls()),
{
    let ghost start = diags_view(out@);
    let lines = &ctx.line_bytes;
    let name = match crypto_fn_after_exec(ctx, e) {
        Some(n) => n,
        None => {
            assert(diags_view(out@) =~= start + hardware_at(ctx.lb(), s as int, e as int, ctx.path@, ctx.ls()));
            return;
        },
    };
    let details = tag_content_exec(lines, s, e, "@details".as_bytes());
    if has_hardware_word_exec(details.as_slice()) {
        assert(diags_view(out@) =~= start + hardware_at(ctx.lb(), s as int, e as int, ctx.path@, ctx.ls()));
        return;
    }
    let line = match first_line_has_exec(lines, s, e, "@details".as_bytes()) {
        Some(l) => l,
        None => match first_line_has_exec(lines, s, e, "@brief".as_bytes()) {
            Some(l) => l,
            None => s,
        },
    };
    let n = lines.len();
    assert(line < n);
    let ns = text_of(name.as_slice());
    emit(
        out,
        RuleId::Style004,
        line_span(ctx.path.as_str(), line + 1, &ctx.lines),
        concat3("Crypto function '", ns.as_str(), "' documentation does not name the hardware backend."),
        "Crypto API docs should state whether they rely on CC310, CC312, or ESP32 hardware.",
        "Add an @details line that names the relevant backend, such as CC310 or ESP32.".to_owned(),
    );
}

/// Checks crypto function docs for a named hardware backend.
pub fn check_crypto_hardware_words(ctx: &FileContext, out: &mut Vec<Diagnostic>)
    requires
        ctx.wf(),
    ensures
        diags_view(final(out)@) == diags_view(old(out)@) + hardware_over(
            ctx.lb(),
            doc_blocks(ctx.lb()),
            ctx.path@,
            ctx.ls(),
        ),
{
    let ghost start = diags_view(out@);
    let bs = doc_blocks_exec(&ctx.line_bytes);
    let ghost bv = doc_blocks(ctx.lb());
    let mut k: usize = 0;
    while k < bs.len()
        invariant
            ctx.wf(),
            bv == doc_blocks(ctx.lb()),
            bs@.len() == bv.len(),
            forall|m: int|
                0 <= m < bs@.len() ==> (#[trigger] bs@[m]).0 as int == bv[m].0 && bs@[m].1 as int == bv[m].1
                    && bs@[m].0 <= bs@[m].1 < ctx.line_bytes@.len(),
            k <= bs@.len(),
            diags_view(out@) == start + hardware_over(ctx.lb(), bv.subrange(0, k as int), ctx.path@, ctx.ls()),
        decreases bs@.len() - k,
    {
        let (s, e) = bs[k];
        assert(bs@[k as int] == (s, e));
        hardware_one(ctx, s, e, out);
        let ghost sub = bv.subrange(0, k + 1);
        assert(sub.drop_last() =~= bv.subrange(0, k as int));
        assert(sub.last() == bv[k as int]);
        k = k + 1;
    }
    assert(bv.subrange(0, bs@.len() as int) =~= bv);
}

impl Pass for StylePass {
    fn name(&self) -> (r: &'static str)
        ensures
            r@ == "style"@,
    {
        "style"
    }

    fn languages(&self) -> (r: Option<Vec<SourceLanguage>>)
        ensures
            r matches Some(v) && v@ == c_cpp(),
    {
        Some(c_cpp_languages())
    }

    fn run(&self, ctx: &FileContext) -> (r: Vec<Diagnostic>)
        ensures
            diags_view(r@) == style_findings(ctx),
    {
        proof {
            reveal(style_findings);
        }
        let mut out: Vec<Diagnostic> = Vec::new();
        assert(diags_view(out@) =~= Seq::<DiagnosticView>::empty());
        check_generic_briefs(ctx, &mut out);
        check_crypto_hardware_words(ctx, &mut out);
        assert(diags_view(out@) =~= style_findings(ctx));
        out
    }
}

} // verus!
