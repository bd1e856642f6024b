//! Writing-style checks on documentation comments.

use vstd::prelude::*;
use vstd::string::StringSliceAdditionalSpecFns;

use super::{doc_open_step, in_doc_comment};
use crate::context::FileContext;
use crate::diagnostic::{concat3, emit, finding, line_span, line_span_of};
use crate::rules::{rule_view, RuleId};
use crate::text::{contains, is_ident_byte, occurs_at, seq_contains, seq_lower, to_lower, vv, matches_at};
use crate::types::{diags_view, Diagnostic, DiagnosticView, SpanView};

verus! {

/// Number of banned words.
pub open spec fn banned_word_count() -> int {
    29
}

/// Number of banned phrases.
pub open spec fn banned_phrase_count() -> int {
    11
}

/// Banned word `k` and the advice given for it.
pub open spec fn banned_word(k: int) -> (&'static str, &'static str) {
    if k == 0 {
        ("robust", "Say what makes it reliable instead of calling it robust.")
    } else if k == 1 {
        ("seamless", "Say which failure modes are handled and how.")
    } else if k == 2 {
        ("seamlessly", "Say which failure modes are handled and how.")
    } else if k == 3 {
        ("leverage", "Use plain language such as use, call, or rely on.")
    } else if k == 4 {
        ("utilize", "Just say use.")
    } else if k == 5 {
        ("delve", "Say look at, read, or examine.")
    } else if k == 6 {
        ("multifaceted", "Say what the actual facets are.")
    } else if k == 7 {
        ("holistic", "Say which parts are covered.")
    } else if k == 8 {
        ("ensure", "Say check or verify instead of implying a guarantee.")
    } else if k == 9 {
        ("tapestry", "Use plain technical language instead.")
    } else if k == 10 {
        ("paradigm", "Use plain technical language instead.")
    } else if k == 11 {
        ("testament", "Use plain technical language instead.")
    } else if k == 12 {
        ("beacon", "Use plain technical language instead.")
    } else if k == 13 {
        ("cornerstone", "Use plain technical language instead.")
    } else if k == 14 {
        ("catalyst", "Use plain technical language instead.")
    } else if k == 15 {
        ("foster", "Say encourage or build.")
    } else if k == 16 {
        ("underscore", "Say show or highlight.")
    } else if k == 17 {
        ("showcase", "Say show or demo.")
    } else if k == 18 {
        ("harness", "Say use.")
    } else if k == 19 {
        ("embark", "Say start.")
    } else if k == 20 {
        ("spearhead", "Say lead.")
    } else if k == 21 {
        ("pivotal", "Say important or key.")
    } else if k == 22 {
        ("groundbreaking", "Say what is actually new.")
    } else if k == 23 {
        ("transformative", "Say what it changes exactly.")
    } else if k == 24 {
        ("meticulous", "Say careful or detailed.")
    } else if k == 25 {
        ("vibrant", "Irrelevant in technical documentation.")
    } else if k == 26 {
        ("innovative", "Say new.")
    } else if k == 27 {
        ("unprecedented", "Say first or new if it is literally true.")
    } else if k == 28 {
        ("ubiquitous", "Say common or widespread.")
    } else {
        ("ubiquitous", "Say common or widespread.")
    }
}

/// Banned phrase `k`.
pub open spec fn banned_phrase(k: int) -> &'static str {
    if k == 0 {
        "in today's fast-paced"
    } else if k == 1 {
        "in today's digital age"
    } else if k == 2 {
        "delve into the world of"
    } else if k == 3 {
        "pave the way"
    } else if k == 4 {
        "at the forefront"
    } else if k == 5 {
        "harness the power"
    } else if k == 6 {
        "game-changer"
    } else if k == 7 {
        "unlock the power"
    } else if k == 8 {
        "stay ahead of the curve"
    } else if k == 9 {
        "it is important to note that"
    } else if k == 10 {
        "it goes without saying"
    } else {
        "it goes without saying"
    }
}

fn banned_word_exec(k: usize) -> (r: (&'static str, &'static str))
    ensures
        r == banned_word(k as int),
{
    if k == 0 {
        ("robust", "Say what makes it reliable instead of calling it robust.")
    } else if k == 1 {
        ("seamless", "Say which failure modes are handled and how.")
    } else if k == 2 {
        ("seamlessly", "Say which failure modes are handled and how.")
    } else if k == 3 {
        ("leverage", "Use plain language such as use, call, or rely on.")
    } else if k == 4 {
        ("utilize", "Just say use.")
    } else if k == 5 {
        ("delve", "Say look at, read, or examine.")
    } else if k == 6 {
        ("multifaceted", "Say what the actual facets are.")
    } else if k == 7 {
        ("holistic", "Say which parts are covered.")
    } else if k == 8 {
        ("ensure", "Say check or verify instead of implying a guarantee.")
    } else if k == 9 {
        ("tapestry", "Use plain technical language instead.")
    } else if k == 10 {
        ("paradigm", "Use plain technical language instead.")
    } else if k == 11 {
        ("testament", "Use plain technical language instead.")
    } else if k == 12 {
        ("beacon", "Use plain technical language instead.")
    } else if k == 13 {
        ("cornerstone", "Use plain technical language instead.")
    } else if k == 14 {
        ("catalyst", "Use plain technical language instead.")
    } else if k == 15 {
        ("foster", "Say encourage or build.")
    } else if k == 16 {
        ("underscore", "Say show or highlight.")
    } else if k == 17 {
        ("showcase", "Say show or demo.")
    } else if k == 18 {
        ("harness", "Say use.")
    } else if k == 19 {
        ("embark", "Say start.")
    } else if k == 20 {
        ("spearhead", "Say lead.")
    } else if k == 21 {
        ("pivotal", "Say important or key.")
    } else if k == 22 {
        ("groundbreaking", "Say what is actually new.")
    } else if k == 23 {
        ("transformative", "Say what it changes exactly.")
    } else if k == 24 {
        ("meticulous", "Say careful or detailed.")
    } else if k == 25 {
        ("vibrant", "Irrelevant in technical documentation.")
    } else if k == 26 {
        ("innovative", "Say new.")
    } else if k == 27 {
        ("unprecedented", "Say first or new if it is literally true.")
    } else if k == 28 {
        ("ubiquitous", "Say common or widespread.")
    } else {
        ("ubiquitous", "Say common or widespread.")
    }
}

fn banned_phrase_exec(k: usize) -> (r: &'static str)
    ensures
        r == banned_phrase(k as int),
{
    if k == 0 {
        "in today's fast-paced"
    } else if k == 1 {
        "in today's digital age"
    } else if k == 2 {
        "delve into the world of"
    } else if k == 3 {
        "pave the way"
    } else if k == 4 {
        "at the forefront"
    } else if k == 5 {
        "harness the power"
    } else if k == 6 {
        "game-changer"
    } else if k == 7 {
        "unlock the power"
    } else if k == 8 {
        "stay ahead of the curve"
    } else if k == 9 {
        "it is important to note that"
    } else if k == 10 {
        "it goes without saying"
    } else {
        "it goes without saying"
    }
}

/// `w` occurs in `l` with no identifier byte right before or right after it.
///
/// The banned words are made of letters only, so an occurrence that overlaps
/// an earlier one is preceded by a letter: taking every occurrence, or only
/// the non-overlapping ones that `str::match_indices` yields, decides alike.
pub open spec fn contains_word(l: Seq<u8>, w: Seq<u8>) -> bool {
    exists|i: int| #[trigger] occurs_at(l, w, i) && bounded_at(l, w, i)
}

/// The occurrence of `w` at `i` has no identifier byte on either side.
pub open spec fn bounded_at(l: Seq<u8>, w: Seq<u8>, i: int) -> bool {
    !(i > 0 && is_ident_byte(l[i - 1])) && !(i + w.len() < l.len() && is_ident_byte(l[i + w.len()]))
}

/// Whether `w` occurs in `l` as a whole word.
pub fn contains_word_exec(l: &[u8], w: &[u8]) -> (r: bool)
    ensures
        r == contains_word(l@, w@),
{
    let n = l.len();
    let m = w.len();
    if m > n {
        return false;
    }
    let mut i: usize = 0;
    loop
        invariant
            n == l@.len(),
            m == w@.len(),
            m <= n,
            i <= n - m,
            forall|j: int| 0 <= j < i ==> !(#[trigger] occurs_at(l@, w@, j) && bounded_at(l@, w@, j)),
        decreases n - m - i,
    {
        if matches_at(l, w, i) {
            let before = i > 0 && (is_ident_exec(l[i - 1]));
            let after = i + m < n && is_ident_exec(l[i + m]);
            if !before && !after {
                assert(occurs_at(l@, w@, i as int) && bounded_at(l@, w@, i as int));
                return true;
            }
        }
        if i == n - m {
            assert forall|j: int| !(#[trigger] occurs_at(l@, w@, j) && bounded_at(l@, w@, j)) by {
                if occurs_at(l@, w@, j) {
                    assert(j <= n - m);
                }
            }
            return false;
        }
        i = i + 1;
    }
}

fn is_ident_exec(b: u8) -> (r: bool)
    ensures
        r == is_ident_byte(b),
{
    (48 <= b && b <= 57) || (65 <= b && b <= 90) || (97 <= b && b <= 122) || b == 95
}

/// Banned-word findings among words `0..k` for a lower-cased line.
pub open spec fn word_hits(lower: Seq<u8>, k: int, sp: SpanView) -> Seq<DiagnosticView>
    decreases k,
{
    if k <= 0 {
        Seq::empty()
    } else {
        let (w, help) = banned_word(k - 1);
        word_hits(lower, k - 1, sp) + if contains_word(lower, w.spec_bytes()) {
            seq![
                finding(
                    RuleId::Style001,
                    sp,
                    "Banned word \""@ + w@ + "\" found in documentation comment."@,
                    "These words are strong AI-tell signals in technical writing."@,
                    help@,
                ),
            ]
        } else {
            Seq::empty()
        }
    }
}

/// Banned-phrase findings among phrases `0..k` for a lower-cased line.
pub open spec fn phrase_hits(lower: Seq<u8>, k: int, sp: SpanView) -> Seq<DiagnosticView>
    decreases k,
{
    if k <= 0 {
        Seq::empty()
    } else {
        let p = banned_phrase(k - 1);
        phrase_hits(lower, k - 1, sp) + if seq_contains(lower, p.spec_bytes()) {
            seq![
                finding(
                    RuleId::Style001,
                    sp,
                    "Banned phrase \""@ + p@ + "\" found in documentation comment."@,
                    "Template marketing phrases are not acceptable in Nirapod docs."@,
                    "Rewrite this line in plain, direct technical language."@,
                ),
            ]
        } else {
            Seq::empty()
        }
    }
}

/// Style findings on line `i`, when it lies in a doc comment.
pub open spec fn line_banned(lb: Seq<Seq<u8>>, i: int, file: Seq<char>, ls: Seq<Seq<char>>) -> Seq<DiagnosticView> {
    if in_doc_comment(lb, i) {
        let lower = seq_lower(lb[i]);
        let sp = line_span_of(file, (i + 1) as usize, ls);
        word_hits(lower, banned_word_count(), sp) + phrase_hits(lower, banned_phrase_count(), sp)
    } else {
        Seq::empty()
    }
}

/// Banned words and phrases in doc comments on lines `0..n` (`check_banned_words`).
pub open spec fn banned_findings(lb: Seq<Seq<u8>>, n: int, file: Seq<char>, ls: Seq<Seq<char>>) -> Seq<DiagnosticView>
    decreases n,
{
    if n <= 0 {
        Seq::empty()
    } else {
        banned_findings(lb, n - 1, file, ls) + line_banned(lb, n - 1, file, ls)
    }
}

/// Em dashes in doc comments on lines `0..n` (`check_em_dash`).
pub open spec fn em_dash_findings(lb: Seq<Seq<u8>>, n: int, file: Seq<char>, ls: Seq<Seq<char>>) -> Seq<DiagnosticView>
    decreases n,
{
    if n <= 0 {
        Seq::empty()
    } else {
        em_dash_findings(lb, n - 1, file, ls) + if in_doc_comment(lb, n - 1) && seq_contains(
            lb[n - 1],
            "\u{2014}".spec_bytes(),
        ) {
            seq![
                finding(
                    RuleId::Style002,
                    line_span_of(file, n as usize, ls),
                    "Em-dash character (\u{2014}) found in documentation comment."@,
                    "Em dashes are forbidden in this codebase's documentation style."@,
                    "Replace it with a comma, colon, period, or a shorter sentence."@,
                ),
            ]
        } else {
            Seq::empty()
        }
    }
}

fn line_words(ctx: &FileContext, i: usize, lower: &[u8], out: &mut Vec<Diagnostic>)
    requires
        ctx.wf(),
        i < ctx.lines@.len(),
    ensures
        diags_view(final(out)@) == diags_view(old(out)@) + word_hits(
            lower@,
            banned_word_count(),
            line_span_of(ctx.path@, (i + 1) as usize, ctx.ls()),
        ),
{
    let ghost start = diags_view(out@);
    let nl = ctx.lines.len();
    assert(i < nl);
    let ghost sp = line_span_of(ctx.path@, (i + 1) as usize, ctx.ls());
    let mut k: usize = 0;
    while k < 29
        invariant
            ctx.wf(),
            i < ctx.lines@.len(),
            nl == ctx.lines@.len(),
            k <= 29,
            sp == line_span_of(ctx.path@, (i + 1) as usize, ctx.ls()),
            diags_view(out@) == start + word_hits(lower@, k as int, sp),
        decreases 29 - k,
    {
        let (w, help) = banned_word_exec(k);
        if contains_word_exec(lower, w.as_bytes()) {
            emit(
                out,
                RuleId::Style001,
                line_span(ctx.path.as_str(), i + 1, &ctx.lines),
                concat3("Banned word \"", w, "\" found in documentation comment."),
                "These words are strong AI-tell signals in technical writing.",
                help.to_owned(),
            );
        }
        k = k + 1;
        assert(diags_view(out@) =~= start + word_hits(lower@, k as int, sp));
    }
}

fn line_phrases(ctx: &FileContext, i: usize, lower: &[u8], out: &mut Vec<Diagnostic>)
    requires
        ctx.wf(),
        i < ctx.lines@.len(),
    ensures
        diags_view(final(out)@) == diags_view(old(out)@) + phrase_hits(
            lower@,
            banned_phrase_count(),
            line_span_of(ctx.path@, (i + 1) as usize, ctx.ls()),
        ),
{
    let ghost start = diags_view(out@);
    let nl = ctx.lines.len();
    assert(i < nl);
    let ghost sp = line_span_of(ctx.path@, (i + 1) as usize, ctx.ls());
    let mut k: usize = 0;
    while k < 11
        invariant
            ctx.wf(),
            i < ctx.lines@.len(),
            nl == ctx.lines@.len(),
            k <= 11,
            sp == line_span_of(ctx.path@, (i + 1) as usize, ctx.ls()),
            diags_view(out@) == start + phrase_hits(lower@, k as int, sp),
        decreases 11 - k,
    {
        let p = banned_phrase_exec(k);
        if contains(lower, p.as_bytes()) {
            emit(
                out,
                RuleId::Style001,
                line_span(ctx.path.as_str(), i + 1, &ctx.lines),
                concat3("Banned phrase \"", p, "\" found in documentation comment."),
                "Template marketing phrases are not acceptable in Nirapod docs.",
                "Rewrite this line in plain, direct technical language.".to_owned(),
            );
        }
        k = k + 1;
        assert(diags_view(out@) =~= start + phrase_hits(lower@, k as int, sp));
    }
}

/// Checks doc comments for banned words and phrases.
pub fn check_banned_words(ctx: &FileContext, out: &mut Vec<Diagnostic>)
    requires
        ctx.wf(),
    ensures
        diags_view(final(out)@) == diags_view(old(out)@) + banned_findings(
            ctx.lb(),
            ctx.lb().len() as int,
            ctx.path@,
            ctx.ls(),
        ),
{
    let ghost start = diags_view(out@);
    let ghost lb = ctx.lb();
    let n = ctx.line_bytes.len();
    let mut open = false;
    let mut i: usize = 0;
    while i < n
        invariant
            ctx.wf(),
            lb == ctx.lb(),
            n == lb.len(),
            i <= n,
            open == super::doc_open_before(lb, i as int),
            diags_view(out@) == start + banned_findings(lb, i as int, ctx.path@, ctx.ls()),
        decreases n - i,
    {
        assert(lb[i as int] == ctx.line_bytes@[i as int]@);
        let l = ctx.line_bytes[i].as_slice();
        let (in_doc, next) = doc_open_step(open, l);
        if in_doc {
            let lower = to_lower(l);
            line_words(ctx, i, lower.as_slice(), out);
            line_phrases(ctx, i, lower.as_slice(), out);
        }
        open = next;
        i = i + 1;
        assert(diags_view(out@) =~= start + banned_findings(lb, i as int, ctx.path@, ctx.ls()));
    }
}

/// Checks doc comments for em dashes.
pub fn check_em_dash(ctx: &FileContext, out: &mut Vec<Diagnostic>)
    requires
        ctx.wf(),
    ensures
        diags_view(final(out)@) == diags_view(old(out)@) + em_dash_findings(
            ctx.lb(),
            ctx.lb().len() as int,
            ctx.path@,
            ctx.ls(),
        ),
{
    let ghost start = diags_view(out@);
    let ghost lb = ctx.lb();
    let n = ctx.line_bytes.len();
    let mut open = false;
    let mut i: usize = 0;
    while i < n
        invariant
            ctx.wf(),
            lb == ctx.lb(),
            n == lb.len(),
            i <= n,
            open == super::doc_open_before(lb, i as int),
            diags_view(out@) == start + em_dash_findings(lb, i as int, ctx.path@, ctx.ls()),
        decreases n - i,
    {
        assert(lb[i as int] == ctx.line_bytes@[i as int]@);
        let l = ctx.line_bytes[i].as_slice();
        let (in_doc, next) = doc_open_step(open, l);
        if in_doc && contains(l, "\u{2014}".as_bytes()) {
            emit(
                out,
                RuleId::Style002,
                line_span(ctx.path.as_str(), i + 1, &ctx.lines),
                "Em-dash character (\u{2014}) found in documentation comment.".to_owned(),
                "Em dashes are forbidden in this codebase's documentation style.",
                "Replace it with a comma, colon, period, or a shorter sentence.".to_owned(),
            );
        }
        open = next;
        i = i + 1;
        assert(diags_view(out@) =~= start + em_dash_findings(lb, i as int, ctx.path@, ctx.ls()));
    }
}

/// Every banned-word or banned-phrase finding `f[k]` has the style rule and
/// spans `sp`.
pub open spec fn style_hits_at(f: Seq<DiagnosticView>, sp: SpanView) -> bool {
    forall|k: int| 0 <= k < f.len() ==> #[trigger] f[k].rule == rule_view(RuleId::Style001) && f[k].span == sp
}

proof fn lemma_hits_at(lower: Seq<u8>, k: int, sp: SpanView)
    ensures
        style_hits_at(word_hits(lower, k, sp), sp),
        style_hits_at(phrase_hits(lower, k, sp), sp),
    decreases k,
{
    if k > 0 {
        lemma_hits_at(lower, k - 1, sp);
        let a = word_hits(lower, k - 1, sp);
        let b = word_hits(lower, k, sp);
        assert forall|j: int| 0 <= j < b.len() implies #[trigger] b[j].rule == rule_view(RuleId::Style001)
            && b[j].span == sp by {
            if j < a.len() {
                assert(b[j] == a[j]);
            }
        }
        let c = phrase_hits(lower, k - 1, sp);
        let d = phrase_hits(lower, k, sp);
        assert forall|j: int| 0 <= j < d.len() implies #[trigger] d[j].rule == rule_view(RuleId::Style001)
            && d[j].span == sp by {
            if j < c.len() {
                assert(d[j] == c[j]);
            }
        }
    }
}

/// Banned words and phrases are reported only in doc comments: every
/// finding on lines `0..n` has the style rule and spans a line inside a doc
/// comment.
pub proof fn lemma_banned_only_in_docs(lb: Seq<Seq<u8>>, n: int, file: Seq<char>, ls: Seq<Seq<char>>)
    ensures
        forall|k: int|
            0 <= k < banned_findings(lb, n, file, ls).len() ==> exists|i: int|
                0 <= i < n && in_doc_comment(lb, i) && (#[trigger] banned_findings(lb, n, file, ls)[k]).rule
                    == rule_view(RuleId::Style001) && banned_findings(lb, n, file, ls)[k].span
                    == line_span_of(file, (i + 1) as usize, ls),
    decreases n,
{
    if n > 0 {
        lemma_banned_only_in_docs(lb, n - 1, file, ls);
        let a = banned_findings(lb, n - 1, file, ls);
        let l = line_banned(lb, n - 1, file, ls);
        let f = banned_findings(lb, n, file, ls);
        assert(f == a + l);
        let i = n - 1;
        let sp = line_span_of(file, (i + 1) as usize, ls);
        if in_doc_comment(lb, i) {
            let lower = seq_lower(lb[i]);
            lemma_hits_at(lower, banned_word_count(), sp);
            lemma_hits_at(lower, banned_phrase_count(), sp);
        }
        assert forall|k: int| 0 <= k < f.len() implies exists|j: int|
            0 <= j < n && in_doc_comment(lb, j) && (#[trigger] f[k]).rule == rule_view(RuleId::Style001)
                && f[k].span == line_span_of(file, (j + 1) as usize, ls) by {
            if k < a.len() {
                assert(f[k] == a[k]);
                assert(a[k] == banned_findings(lb, n - 1, file, ls)[k]);
            } else {
                let w = word_hits(seq_lower(lb[i]), banned_word_count(), sp);
                let p = phrase_hits(seq_lower(lb[i]), banned_phrase_count(), sp);
                let m = k - a.len();
                assert(f[k] == l[m]);
                if m < w.len() {
                    assert(l[m] == w[m]);
                } else {
                    assert(l[m] == p[m - w.len()]);
                }
            }
        }
    }
}

} // verus!
