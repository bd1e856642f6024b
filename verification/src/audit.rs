//! Running every pass over one file, ordering the findings and counting them.

use vstd::prelude::*;

use crate::ast_pass::{ast_findings, AstPass};
use crate::context::{build_file_context, ContextBuildError, FileContext, ProjectContext};
use crate::crypto_pass::{crypto_findings, CryptoPass};
use crate::lex_pass::{lex_findings, LexPass};
use crate::memory_pass::{memory_findings, MemoryPass};
use crate::nasa_pass::{nasa_findings, NasaPass};
use crate::order::{bytes_less, bytes_lt, lemma_bytes_lt_transitive};
use crate::parser::{language_of_path, parse_enabled, parsed_wf, syntax_of, ParserError};
use crate::context::{platform_of, role_of};
use crate::pass::Pass;
use crate::style_pass::{style_findings, StylePass};
use crate::summary::AuditSummaryView;
use crate::text::{split_lines, vv};
use crate::config::{override_for, override_lookup};
use crate::types::{
    diags_view, Diagnostic, DiagnosticView, FileRole, RuleOverride, RuleOverrideSeverity, RuleView,
    Severity, SourceLanguage,
};
use vstd::string::StringSliceAdditionalSpecFns;

verus! {

/// Whether a pass with the language filter `langs` applies to `language`;
/// no filter means every language.
pub open spec fn pass_applies(langs: Option<Vec<SourceLanguage>>, language: SourceLanguage) -> bool {
    match langs {
        None => true,
        Some(v) => v@.contains(language),
    }
}

/// Tests a pass's language filter.
pub fn applies_to(langs: Option<Vec<SourceLanguage>>, language: SourceLanguage) -> (r: bool)
    ensures
        r == pass_applies(langs, language),
{
    if langs.is_none() {
        return true;
    }
    let v = langs.unwrap();
    let mut i: usize = 0;
    while i < v.len()
        invariant
            langs == Some(v),
            i <= v@.len(),
            forall|k: int| 0 <= k < i ==> v@[k] != language,
        decreases v@.len() - i,
    {
        if v[i] == language {
            assert(v@[i as int] == language);
            assert(v@.contains(language));
            return true;
        }
        i = i + 1;
    }
    false
}

/// The findings of the six passes, in pass order, before sorting: lexical,
/// documentation, NASA rules, cryptography, memory safety, style. Every pass
/// is limited to C and C++.
pub open spec fn unsorted_findings(ctx: &FileContext) -> Seq<DiagnosticView> {
    if ctx.language == SourceLanguage::C || ctx.language == SourceLanguage::Cpp {
        lex_findings(ctx) + ast_findings(ctx) + nasa_findings(ctx) + crypto_findings(ctx)
            + memory_findings(ctx) + style_findings(ctx)
    } else {
        Seq::empty()
    }
}

/// `x` is reported before `y`: ordered by file path, start line, start
/// column and rule identifier, in that order; paths and identifiers compare
/// as byte strings.
pub open spec fn reported_before(x: DiagnosticView, y: DiagnosticView) -> bool {
    let fx = vstd::utf8::encode_utf8(x.span.file);
    let fy = vstd::utf8::encode_utf8(y.span.file);
    let ix = vstd::utf8::encode_utf8(x.rule.id);
    let iy = vstd::utf8::encode_utf8(y.rule.id);
    ||| bytes_lt(fx, fy)
    ||| fx == fy && x.span.start_line < y.span.start_line
    ||| fx == fy && x.span.start_line == y.span.start_line && x.span.start_col < y.span.start_col
    ||| fx == fy && x.span.start_line == y.span.start_line && x.span.start_col == y.span.start_col
        && bytes_lt(ix, iy)
}

/// Inserts `x` into `s` after every element that `x` is not reported before.
pub open spec fn insert_in_order(s: Seq<DiagnosticView>, x: DiagnosticView) -> Seq<
    DiagnosticView,
>
    decreases s.len(),
{
    if s.len() == 0 {
        seq![x]
    } else if reported_before(x, s[0]) {
        seq![x] + s
    } else {
        seq![s[0]] + insert_in_order(s.drop_first(), x)
    }
}

/// The stable sort of `s` by [`reported_before`]: findings with equal keys
/// keep their pass order.
pub open spec fn in_report_order(s: Seq<DiagnosticView>) -> Seq<DiagnosticView>
    decreases s.len(),
{
    if s.len() == 0 {
        s
    } else {
        insert_in_order(in_report_order(s.drop_last()), s.last())
    }
}

/// No element of `s` is reported before an element that precedes it.
pub open spec fn is_report_ordered(s: Seq<DiagnosticView>) -> bool {
    forall|i: int, j: int| 0 <= i < j < s.len() ==> !reported_before(#[trigger] s[j], #[trigger] s[i])
}

/// [`reported_before`] is transitive.
pub proof fn lemma_reported_before_transitive(x: DiagnosticView, y: DiagnosticView, z: DiagnosticView)
    requires
        reported_before(x, y),
        reported_before(y, z),
    ensures
        reported_before(x, z),
{
    let fx = vstd::utf8::encode_utf8(x.span.file);
    let fy = vstd::utf8::encode_utf8(y.span.file);
    let fz = vstd::utf8::encode_utf8(z.span.file);
    if bytes_lt(fx, fy) && bytes_lt(fy, fz) {
        lemma_bytes_lt_transitive(fx, fy, fz);
    }
    let ix = vstd::utf8::encode_utf8(x.rule.id);
    let iy = vstd::utf8::encode_utf8(y.rule.id);
    let iz = vstd::utf8::encode_utf8(z.rule.id);
    if bytes_lt(ix, iy) && bytes_lt(iy, iz) {
        lemma_bytes_lt_transitive(ix, iy, iz);
    }
}

/// No finding is reported before itself.
pub proof fn lemma_reported_before_irreflexive(x: DiagnosticView)
    ensures
        !reported_before(x, x),
{
    crate::order::lemma_bytes_lt_irreflexive(vstd::utf8::encode_utf8(x.span.file));
    crate::order::lemma_bytes_lt_irreflexive(vstd::utf8::encode_utf8(x.rule.id));
}

/// Inserting at the first position whose element `x` is reported before is
/// [`insert_in_order`].
proof fn lemma_insert_at(s: Seq<DiagnosticView>, x: DiagnosticView, k: int)
    requires
        0 <= k <= s.len(),
        forall|j: int| 0 <= j < k ==> !reported_before(x, #[trigger] s[j]),
        k < s.len() ==> reported_before(x, s[k]),
    ensures
        insert_in_order(s, x) == s.insert(k, x),
    decreases s.len(),
{
    if s.len() == 0 {
        assert(s.insert(k, x) =~= seq![x]);
    } else if k == 0 {
        assert(s.insert(k, x) =~= seq![x] + s);
    } else {
        let t = s.drop_first();
        assert forall|j: int| 0 <= j < k - 1 implies !reported_before(x, #[trigger] t[j]) by {
            assert(t[j] == s[j + 1]);
        }
        lemma_insert_at(t, x, k - 1);
        assert(s.insert(k, x) =~= seq![s[0]] + t.insert(k - 1, x));
    }
}

/// What [`insert_in_order`] yields holds `x` and the elements of `s`, and
/// nothing else.
pub proof fn lemma_insert_in_order_multiset(s: Seq<DiagnosticView>, x: DiagnosticView)
    ensures
        insert_in_order(s, x).to_multiset() == s.to_multiset().insert(x),
        insert_in_order(s, x).len() == s.len() + 1,
    decreases s.len(),
{
    broadcast use vstd::seq_lib::group_to_multiset_ensures;

    if s.len() == 0 {
        assert(seq![x] =~= Seq::<DiagnosticView>::empty().push(x));
    } else if reported_before(x, s[0]) {
        lemma_prepend_multiset(s, x);
    } else {
        let t = s.drop_first();
        lemma_insert_in_order_multiset(t, x);
        lemma_prepend_multiset(insert_in_order(t, x), s[0]);
        lemma_prepend_multiset(t, s[0]);
        assert(seq![s[0]] + t =~= s);
        assert(t.to_multiset().insert(x).insert(s[0]) =~= t.to_multiset().insert(s[0]).insert(x));
    }
}

proof fn lemma_prepend_multiset(s: Seq<DiagnosticView>, x: DiagnosticView)
    ensures
        (seq![x] + s).to_multiset() == s.to_multiset().insert(x),
{
    broadcast use vstd::seq_lib::group_to_multiset_ensures;

    let t = seq![x] + s;
    assert(t.remove(0) =~= s);
    assert(t.to_multiset().count(x) > 0) by {
        assert(t.contains(x)) by {
            assert(t[0] == x);
        }
    }
    assert(t.to_multiset() =~= t.to_multiset().remove(x).insert(x));
}

/// Inserting into an ordered sequence keeps it ordered.
pub proof fn lemma_insert_in_order_sorted(s: Seq<DiagnosticView>, x: DiagnosticView)
    requires
        is_report_ordered(s),
    ensures
        is_report_ordered(insert_in_order(s, x)),
    decreases s.len(),
{
    broadcast use vstd::seq_lib::group_to_multiset_ensures;

    if s.len() == 0 {
    } else if reported_before(x, s[0]) {
        let r = seq![x] + s;
        assert forall|i: int, j: int| 0 <= i < j < r.len() implies !reported_before(
            #[trigger] r[j],
            #[trigger] r[i],
        ) by {
            if i == 0 {
                assert(r[j] == s[j - 1]);
                if reported_before(r[j], x) {
                    lemma_reported_before_transitive(r[j], x, s[0]);
                    if j - 1 > 0 {
                        assert(!reported_before(s[j - 1], s[0]));
                    } else {
                        lemma_reported_before_irreflexive(s[0]);
                    }
                }
            } else {
                assert(r[i] == s[i - 1] && r[j] == s[j - 1]);
            }
        }
    } else {
        let t = s.drop_first();
        assert(is_report_ordered(t)) by {
            assert forall|i: int, j: int| 0 <= i < j < t.len() implies !reported_before(
                #[trigger] t[j],
                #[trigger] t[i],
            ) by {
                assert(t[i] == s[i + 1] && t[j] == s[j + 1]);
            }
        }
        lemma_insert_in_order_sorted(t, x);
        lemma_insert_in_order_multiset(t, x);
        let u = insert_in_order(t, x);
        let r = seq![s[0]] + u;
        assert forall|i: int, j: int| 0 <= i < j < r.len() implies !reported_before(
            #[trigger] r[j],
            #[trigger] r[i],
        ) by {
            if i == 0 {
                assert(r[j] == u[j - 1]);
                assert(u.to_multiset().count(u[j - 1]) > 0) by {
                    assert(u.contains(u[j - 1]));
                }
                if u[j - 1] != x {
                    assert(t.to_multiset().count(u[j - 1]) > 0);
                    assert(t.contains(u[j - 1]));
                    let k = choose|k: int| 0 <= k < t.len() && t[k] == u[j - 1];
                    assert(s[k + 1] == t[k]);
                }
            } else {
                assert(r[i] == u[i - 1] && r[j] == u[j - 1]);
            }
        }
    }
}

/// The report order is a sorted rearrangement of its input: ordered, and
/// holding the same findings as often as the input does.
pub proof fn lemma_in_report_order(s: Seq<DiagnosticView>)
    ensures
        is_report_ordered(in_report_order(s)),
        in_report_order(s).to_multiset() == s.to_multiset(),
        in_report_order(s).len() == s.len(),
    decreases s.len(),
{
    broadcast use vstd::seq_lib::group_to_multiset_ensures;

    if s.len() > 0 {
        lemma_in_report_order(s.drop_last());
        lemma_insert_in_order_sorted(in_report_order(s.drop_last()), s.last());
        lemma_insert_in_order_multiset(in_report_order(s.drop_last()), s.last());
        assert(s.drop_last().push(s.last()) =~= s);
    }
}

/// Compares two findings by [`reported_before`].
pub fn report_before(x: &Diagnostic, y: &Diagnostic) -> (r: bool)
    ensures
        r == reported_before(x@, y@),
{
    let fx = x.span.file.as_str().as_bytes();
    let fy = y.span.file.as_str().as_bytes();
    if bytes_less(fx, fy) {
        return true;
    }
    if bytes_less(fy, fx) {
        proof {
            crate::order::lemma_bytes_lt_irreflexive(fx@);
        }
        return false;
    }
    proof {
        if fx@ != fy@ {
            crate::order::lemma_bytes_lt_total(fx@, fy@);
        }
    }
    if x.span.start_line != y.span.start_line {
        return x.span.start_line < y.span.start_line;
    }
    if x.span.start_col != y.span.start_col {
        return x.span.start_col < y.span.start_col;
    }
    bytes_less(x.rule.id.as_str().as_bytes(), y.rule.id.as_str().as_bytes())
}

/// Sorts findings into report order, stably.
pub fn sort_findings(all: Vec<Diagnostic>) -> (r: Vec<Diagnostic>)
    ensures
        diags_view(r@) == in_report_order(diags_view(all@)),
{
    let ghost orig = diags_view(all@);
    let n: usize = all.len();
    let mut rest = all;
    let mut out: Vec<Diagnostic> = Vec::new();
    let mut i: usize = 0;
    assert(orig.subrange(0, 0) =~= Seq::<DiagnosticView>::empty());
    while i < n
        invariant
            i <= n,
            n == orig.len(),
            rest@.len() == n - i,
            diags_view(rest@) =~= orig.subrange(i as int, n as int),
            diags_view(out@) == in_report_order(orig.subrange(0, i as int)),
        decreases n - i,
    {
        let ghost old_rest = rest@;
        assert(diags_view(old_rest)[0] == old_rest[0]@);
        let x = rest.remove(0);
        assert(x@ == orig[i as int]);
        assert forall|j: int| 0 <= j < rest@.len() implies #[trigger] diags_view(rest@)[j] == orig[i
            + 1 + j] by {
            assert(rest@[j] == old_rest[j + 1]);
            assert(diags_view(old_rest)[j + 1] == orig.subrange(i as int, n as int)[j + 1]);
        }
        assert(diags_view(rest@) =~= orig.subrange(i + 1, n as int));
        let mut k: usize = 0;
        while k < out.len()
            invariant
                k <= out@.len(),
                forall|j: int| 0 <= j < k ==> !reported_before(x@, #[trigger] diags_view(out@)[j]),
            ensures
                k <= out@.len(),
                forall|j: int| 0 <= j < k ==> !reported_before(x@, #[trigger] diags_view(out@)[j]),
                k < out@.len() ==> reported_before(x@, diags_view(out@)[k as int]),
            decreases out@.len() - k,
        {
            if report_before(&x, &out[k]) {
                break;
            }
            k = k + 1;
        }
        proof {
            lemma_insert_at(diags_view(out@), x@, k as int);
            assert(orig.subrange(0, i + 1).drop_last() =~= orig.subrange(0, i as int));
        }
        let ghost before = out@;
        out.insert(k, x);
        assert(diags_view(out@) =~= diags_view(before).insert(k as int, x@));
        i = i + 1;
    }
    assert(orig.subrange(0, n as int) =~= orig);
    out
}

fn add_findings(all: &mut Vec<Diagnostic>, found: Vec<Diagnostic>)
    ensures
        diags_view(final(all)@) == diags_view(old(all)@) + diags_view(found@),
{
    let ghost before = all@;
    let ghost added = found@;
    let mut found = found;
    all.append(&mut found);
    assert(diags_view(all@) =~= diags_view(before) + diags_view(added));
}

/// Runs every pass that applies to the file's language and returns the
/// findings in report order.
pub fn run_passes(ctx: &FileContext) -> (r: Vec<Diagnostic>)
    requires
        ctx.wf(),
    ensures
        diags_view(r@) == in_report_order(unsorted_findings(ctx)),
{
    let mut all: Vec<Diagnostic> = Vec::new();
    let lex = LexPass;
    let ast = AstPass;
    let nasa = NasaPass;
    let crypto = CryptoPass;
    let memory = MemoryPass;
    let style = StylePass;
    let c_or_cpp = ctx.language == SourceLanguage::C || ctx.language == SourceLanguage::Cpp;
    let ghost on = c_or_cpp;
    assert(crate::pass::c_cpp().contains(ctx.language) == on) by {
        if on {
            assert(crate::pass::c_cpp()[0] == SourceLanguage::C);
            assert(crate::pass::c_cpp()[1] == SourceLanguage::Cpp);
        }
    }
    let ghost mut acc = diags_view(all@);
    if applies_to(lex.languages(), ctx.language) {
        add_findings(&mut all, lex.run(ctx));
    }
    assert(diags_view(all@) =~= acc + (if on { lex_findings(ctx) } else { Seq::empty() }));
    proof {
        acc = diags_view(all@);
    }
    if applies_to(ast.languages(), ctx.language) {
        add_findings(&mut all, ast.run(ctx));
    }
    assert(diags_view(all@) =~= acc + (if on { ast_findings(ctx) } else { Seq::empty() }));
    proof {
        acc = diags_view(all@);
    }
    if applies_to(nasa.languages(), ctx.language) {
        add_findings(&mut all, nasa.run(ctx));
    }
    assert(diags_view(all@) =~= acc + (if on { nasa_findings(ctx) } else { Seq::empty() }));
    proof {
        acc = diags_view(all@);
    }
    if applies_to(crypto.languages(), ctx.language) {
        add_findings(&mut all, crypto.run(ctx));
    }
    assert(diags_view(all@) =~= acc + (if on { crypto_findings(ctx) } else { Seq::empty() }));
    proof {
        acc = diags_view(all@);
    }
    if applies_to(memory.languages(), ctx.language) {
        add_findings(&mut all, memory.run(ctx));
    }
    assert(diags_view(all@) =~= acc + (if on { memory_findings(ctx) } else { Seq::empty() }));
    proof {
        acc = diags_view(all@);
    }
    if applies_to(style.languages(), ctx.language) {
        add_findings(&mut all, style.run(ctx));
    }
    assert(diags_view(all@) =~= acc + (if on { style_findings(ctx) } else { Seq::empty() }));
    proof {
        acc = diags_view(all@);
    }
    proof {
        if on {
            assert(diags_view(all@) =~= unsorted_findings(ctx));
        } else {
            assert(diags_view(all@) =~= unsorted_findings(ctx));
        }
    }
    sort_findings(all)
}

/// Number of findings in `s` whose rule has severity `sev`.
pub open spec fn severity_count(s: Seq<DiagnosticView>, sev: Severity) -> nat
    decreases s.len(),
{
    if s.len() == 0 {
        0
    } else {
        severity_count(s.drop_last(), sev) + if s.last().rule.severity == sev {
            1nat
        } else {
            0nat
        }
    }
}

/// A prefix holds no more findings of a severity than the whole.
pub proof fn lemma_severity_count_prefix(s: Seq<DiagnosticView>, i: int, sev: Severity)
    requires
        0 <= i <= s.len(),
    ensures
        severity_count(s.subrange(0, i), sev) <= severity_count(s, sev),
    decreases s.len() - i,
{
    if i < s.len() {
        lemma_severity_count_prefix(s, i + 1, sev);
        assert(s.subrange(0, i + 1).drop_last() =~= s.subrange(0, i));
    } else {
        assert(s.subrange(0, i) =~= s);
    }
}

/// Adds each finding to the count of its severity.
pub fn update_summary(summary: &mut AuditSummaryView, diagnostics: &[Diagnostic])
    requires
        old(summary).errors + severity_count(diags_view(diagnostics@), Severity::Error)
            <= usize::MAX,
        old(summary).warnings + severity_count(diags_view(diagnostics@), Severity::Warning)
            <= usize::MAX,
        old(summary).infos + severity_count(diags_view(diagnostics@), Severity::Info)
            <= usize::MAX,
    ensures
        final(summary).errors == old(summary).errors + severity_count(
            diags_view(diagnostics@),
            Severity::Error,
        ),
        final(summary).warnings == old(summary).warnings + severity_count(
            diags_view(diagnostics@),
            Severity::Warning,
        ),
        final(summary).infos == old(summary).infos + severity_count(
            diags_view(diagnostics@),
            Severity::Info,
        ),
        final(summary).scanned_files == old(summary).scanned_files,
        final(summary).skipped_files == old(summary).skipped_files,
{
    let ghost all = diags_view(diagnostics@);
    let ghost start = *summary;
    let mut i: usize = 0;
    assert(all.subrange(0, 0) =~= Seq::<DiagnosticView>::empty());
    while i < diagnostics.len()
        invariant
            i <= diagnostics@.len(),
            all == diags_view(diagnostics@),
            start.errors + severity_count(all, Severity::Error) <= usize::MAX,
            start.warnings + severity_count(all, Severity::Warning) <= usize::MAX,
            start.infos + severity_count(all, Severity::Info) <= usize::MAX,
            summary.errors == start.errors + severity_count(all.subrange(0, i as int), Severity::Error),
            summary.warnings == start.warnings + severity_count(
                all.subrange(0, i as int),
                Severity::Warning,
            ),
            summary.infos == start.infos + severity_count(all.subrange(0, i as int), Severity::Info),
            summary.scanned_files == start.scanned_files,
            summary.skipped_files == start.skipped_files,
        decreases diagnostics@.len() - i,
    {
        proof {
            assert(all.subrange(0, i + 1).drop_last() =~= all.subrange(0, i as int));
            assert(all.subrange(0, i + 1).last() == diagnostics@[i as int]@);
            lemma_severity_count_prefix(all, i + 1, Severity::Error);
            lemma_severity_count_prefix(all, i + 1, Severity::Warning);
            lemma_severity_count_prefix(all, i + 1, Severity::Info);
        }
        match diagnostics[i].rule.severity {
            Severity::Error => summary.errors = summary.errors + 1,
            Severity::Warning => summary.warnings = summary.warnings + 1,
            Severity::Info => summary.infos = summary.infos + 1,
        }
        i = i + 1;
    }
    assert(all.subrange(0, diagnostics@.len() as int) =~= all);
}

/// The severity an override other than `ignore` sets.
pub open spec fn override_severity(o: RuleOverrideSeverity) -> Severity {
    match o {
        RuleOverrideSeverity::Error => Severity::Error,
        RuleOverrideSeverity::Warning => Severity::Warning,
        _ => Severity::Info,
    }
}

/// A finding under the configured overrides: dropped when its rule is
/// overridden to `ignore`, re-graded when it is overridden to a severity,
/// unchanged otherwise.
pub open spec fn overridden_finding(d: DiagnosticView, overrides: Seq<RuleOverride>) -> Option<
    DiagnosticView,
> {
    match override_for(overrides, d.rule.id) {
        None => Some(d),
        Some(RuleOverrideSeverity::Ignore) => None,
        Some(o) => Some(DiagnosticView { rule: RuleView { severity: override_severity(o), ..d.rule }, ..d }),
    }
}

/// The findings of `s` under the overrides, in order.
pub open spec fn overridden(s: Seq<DiagnosticView>, overrides: Seq<RuleOverride>) -> Seq<DiagnosticView>
    decreases s.len(),
{
    if s.len() == 0 {
        Seq::empty()
    } else {
        let before = overridden(s.drop_last(), overrides);
        match overridden_finding(s.last(), overrides) {
            Some(d) => before.push(d),
            None => before,
        }
    }
}

/// Applies the configured rule overrides to findings: an `ignore` override
/// drops the rule's findings, any other override replaces their severity.
pub fn apply_overrides(found: Vec<Diagnostic>, overrides: &Vec<RuleOverride>) -> (r: Vec<Diagnostic>)
    ensures
        diags_view(r@) == overridden(diags_view(found@), overrides@),
{
    let ghost orig = diags_view(found@);
    let n: usize = found.len();
    let mut rest = found;
    let mut out: Vec<Diagnostic> = Vec::new();
    let mut i: usize = 0;
    assert(orig.subrange(0, 0) =~= Seq::<DiagnosticView>::empty());
    while i < n
        invariant
            i <= n,
            n == orig.len(),
            rest@.len() == n - i,
            diags_view(rest@) =~= orig.subrange(i as int, n as int),
            diags_view(out@) == overridden(orig.subrange(0, i as int), overrides@),
        decreases n - i,
    {
        let ghost old_rest = rest@;
        assert(diags_view(old_rest)[0] == old_rest[0]@);
        let mut d = rest.remove(0);
        assert(d@ == orig[i as int]);
        assert forall|j: int| 0 <= j < rest@.len() implies #[trigger] diags_view(rest@)[j]
            == orig[i + 1 + j] by {
            assert(rest@[j] == old_rest[j + 1]);
            assert(diags_view(old_rest)[j + 1] == orig.subrange(i as int, n as int)[j + 1]);
        }
        assert(diags_view(rest@) =~= orig.subrange(i + 1, n as int));
        proof {
            assert(orig.subrange(0, i + 1).drop_last() =~= orig.subrange(0, i as int));
            assert(orig.subrange(0, i + 1).last() == orig[i as int]);
        }
        let ghost before = out@;
        match override_lookup(overrides, d.rule.id.as_str()) {
            None => {
                out.push(d);
                assert(diags_view(out@) =~= diags_view(before).push(orig[i as int]));
            },
            Some(RuleOverrideSeverity::Ignore) => {},
            Some(o) => {
                let ghost dv = d@;
                d.rule.severity = match o {
                    RuleOverrideSeverity::Error => Severity::Error,
                    RuleOverrideSeverity::Warning => Severity::Warning,
                    _ => Severity::Info,
                };
                assert(d@ == DiagnosticView {
                    rule: RuleView { severity: override_severity(o), ..dv.rule },
                    ..dv
                });
                out.push(d);
                assert(diags_view(out@) =~= diags_view(before).push(d@));
            },
        }
        i = i + 1;
    }
    assert(orig.subrange(0, n as int) =~= orig);
    out
}

/// Overrides hold of every finding reported: no finding of a rule
/// overridden to `ignore` remains, a finding of a rule overridden to a
/// severity has that severity, and a finding of a rule with no override
/// keeps its own.
pub proof fn lemma_overrides_hold(s: Seq<DiagnosticView>, overrides: Seq<RuleOverride>)
    ensures
        forall|k: int|
            0 <= k < overridden(s, overrides).len() ==> {
                let d = #[trigger] overridden(s, overrides)[k];
                match override_for(overrides, d.rule.id) {
                    Some(RuleOverrideSeverity::Ignore) => false,
                    Some(o) => d.rule.severity == override_severity(o),
                    None => true,
                }
            },
        overridden(s, overrides).len() <= s.len(),
    decreases s.len(),
{
    if s.len() > 0 {
        lemma_overrides_hold(s.drop_last(), overrides);
    }
}

/// What auditing one file came to.
#[derive(Debug)]
pub enum FileOutcome {
    /// The language is recognised but has no parser; the file is counted as
    /// skipped.
    Skipped,
    /// The file was parsed and analysed; its findings in report order.
    Scanned(Vec<Diagnostic>),
}

/// `ctx` is a context built for `path` and `raw` under `project`, as
/// [`build_file_context`] describes it.
pub open spec fn built_for(ctx: &FileContext, path: &str, raw: &str, project: &ProjectContext) -> bool {
    &&& ctx.wf()
    &&& language_of_path(path.spec_bytes()) == Some(ctx.language)
    &&& ctx.tree@ == syntax_of(ctx.language, raw.spec_bytes())
    &&& ctx.path@ == path@
    &&& ctx.raw@ == raw@
    &&& ctx.role == role_of(path.spec_bytes())
    &&& ctx.platform == platform_of(raw.spec_bytes(), project.config.platform)
    &&& ctx.is_cpp == (ctx.language == SourceLanguage::Cpp)
    &&& ctx.max_function_lines == project.config.max_function_lines
    &&& ctx.min_assertions == project.config.min_assertions
    &&& vv(ctx.defined_groups@) == vv(project.defined_groups@)
    &&& ctx.lines@.len() == split_lines(raw.spec_bytes()).len()
    &&& forall|i: int|
        0 <= i < ctx.lines@.len() && vstd::utf8::valid_utf8(split_lines(raw.spec_bytes())[i])
            ==> #[trigger] ctx.lines@[i]@ == vstd::utf8::decode_utf8(split_lines(raw.spec_bytes())[i])
    &&& forall|i: int|
        0 <= i < ctx.lines@.len() && !vstd::utf8::valid_utf8(split_lines(raw.spec_bytes())[i])
            ==> #[trigger] ctx.lines@[i]@ == Seq::<char>::empty()
}

/// Audits one file: builds its context, runs every pass over it and applies
/// the project's rule overrides to the findings. A file whose language has no
/// parser is skipped; a path of no supported language is an error, and so is
/// a tree from tree-sitter that is not a well-formed tree within the source.
pub fn audit_file(path: &str, raw: &str, project: &ProjectContext) -> (r: Result<
    FileOutcome,
    ContextBuildError,
>)
    ensures
        r matches Err(ContextBuildError::UnsupportedPath(_)) <==> language_of_path(
            path.spec_bytes(),
        ) is None,
        r matches Ok(FileOutcome::Skipped) <==> (language_of_path(path.spec_bytes()) matches Some(
            l,
        ) && !parse_enabled(l)),
        r matches Ok(FileOutcome::Scanned(_)) <==> (language_of_path(path.spec_bytes()) matches Some(
            l,
        ) && parse_enabled(l) && parsed_wf(l, raw.spec_bytes())),
        r matches Err(ContextBuildError::Parse(_)) <==> (language_of_path(path.spec_bytes()) matches Some(
            l,
        ) && parse_enabled(l) && !parsed_wf(l, raw.spec_bytes())),
        r matches Err(ContextBuildError::Parse(e)) ==> (language_of_path(path.spec_bytes()) matches Some(
            l,
        ) && e == ParserError::ParseFailed(l)),
        r matches Ok(FileOutcome::Scanned(found)) ==> exists|ctx: FileContext|
            #[trigger] built_for(&ctx, path, raw, project) && diags_view(found@) == overridden(
                in_report_order(unsorted_findings(&ctx)),
                project.config.rule_overrides@,
            ),
{
    match build_file_context(path, raw, project) {
        Ok(ctx) => {
            let found = apply_overrides(run_passes(&ctx), &project.config.rule_overrides);
            assert(built_for(&ctx, path, raw, project));
            Ok(FileOutcome::Scanned(found))
        },
        Err(ContextBuildError::Parse(ParserError::UnsupportedLanguage(l))) => Ok(
            FileOutcome::Skipped,
        ),
        Err(e) => Err(e),
    }
}

/// Counts one file's outcome into the run summary.
pub fn record_outcome(summary: &mut AuditSummaryView, outcome: &FileOutcome)
    requires
        outcome is Skipped ==> old(summary).skipped_files < usize::MAX,
        outcome matches FileOutcome::Scanned(found) ==> {
            &&& old(summary).scanned_files < usize::MAX
            &&& old(summary).errors + severity_count(diags_view(found@), Severity::Error)
                <= usize::MAX
            &&& old(summary).warnings + severity_count(diags_view(found@), Severity::Warning)
                <= usize::MAX
            &&& old(summary).infos + severity_count(diags_view(found@), Severity::Info)
                <= usize::MAX
        },
    ensures
        outcome is Skipped ==> *final(summary) == (AuditSummaryView {
            skipped_files: (old(summary).skipped_files + 1) as usize,
            ..*old(summary)
        }),
        outcome matches FileOutcome::Scanned(found) ==> *final(summary) == (AuditSummaryView {
            scanned_files: (old(summary).scanned_files + 1) as usize,
            errors: (old(summary).errors + severity_count(diags_view(found@), Severity::Error)) as usize,
            warnings: (old(summary).warnings + severity_count(diags_view(found@), Severity::Warning)) as usize,
            infos: (old(summary).infos + severity_count(diags_view(found@), Severity::Info)) as usize,
            skipped_files: old(summary).skipped_files,
        }),
{
    match outcome {
        FileOutcome::Skipped => {
            summary.skipped_files = summary.skipped_files + 1;
        },
        FileOutcome::Scanned(found) => {
            summary.scanned_files = summary.scanned_files + 1;
            update_summary(summary, found.as_slice());
        },
    }
}

/// The run passes when it found no error; any error fails it.
pub fn audit_passed(summary: &AuditSummaryView) -> (r: bool)
    ensures
        r == (summary.errors == 0),
{
    summary.errors == 0
}

/// Every finding has exactly one severity, so the three counts add up to
/// the number of findings.
pub proof fn lemma_severity_counts_sum(s: Seq<DiagnosticView>)
    ensures
        severity_count(s, Severity::Error) + severity_count(s, Severity::Warning) + severity_count(
            s,
            Severity::Info,
        ) == s.len(),
    decreases s.len(),
{
    if s.len() > 0 {
        lemma_severity_counts_sum(s.drop_last());
    }
}

/// Vendored code and assembly are left to the style pass alone: the other
/// five passes report nothing on them.
pub proof fn lemma_vendored_files_only_style(ctx: &FileContext)
    requires
        ctx.role == FileRole::ThirdParty || ctx.role == FileRole::Asm,
    ensures
        unsorted_findings(ctx) == (if ctx.language == SourceLanguage::C || ctx.language
            == SourceLanguage::Cpp {
            style_findings(ctx)
        } else {
            Seq::empty()
        }),
{
    reveal(lex_findings);
    reveal(ast_findings);
    reveal(nasa_findings);
    reveal(crypto_findings);
    reveal(memory_findings);
    assert(lex_findings(ctx) =~= Seq::empty());
    assert(ast_findings(ctx) =~= Seq::empty());
    assert(nasa_findings(ctx) =~= Seq::empty());
    assert(crypto_findings(ctx) =~= Seq::empty());
    assert(memory_findings(ctx) =~= Seq::empty());
    assert(Seq::<DiagnosticView>::empty() + Seq::empty() + Seq::empty() + Seq::empty()
        + Seq::empty() + style_findings(ctx) =~= style_findings(ctx));
}

/// No finding of `s` counts as an error exactly when none has error
/// severity; so a run whose summary started at zero passes exactly when no
/// recorded finding is an error.
pub proof fn lemma_no_errors(s: Seq<DiagnosticView>)
    ensures
        severity_count(s, Severity::Error) == 0 <==> forall|k: int|
            0 <= k < s.len() ==> #[trigger] s[k].rule.severity != Severity::Error,
    decreases s.len(),
{
    if s.len() > 0 {
        let t = s.drop_last();
        lemma_no_errors(t);
        if severity_count(s, Severity::Error) == 0 {
            assert forall|k: int| 0 <= k < s.len() implies #[trigger] s[k].rule.severity
                != Severity::Error by {
                if k < s.len() - 1 {
                    assert(t[k] == s[k]);
                }
            }
        } else if forall|k: int| 0 <= k < s.len() ==> #[trigger] s[k].rule.severity != Severity::Error {
            assert forall|k: int| 0 <= k < t.len() implies #[trigger] t[k].rule.severity
                != Severity::Error by {
                assert(t[k] == s[k]);
            }
            assert(s[s.len() - 1].rule.severity != Severity::Error);
        }
    }
}

} // verus!
