//! SPDX and header-ordering checks on source lines.

use vstd::prelude::*;
use vstd::string::StringSliceAdditionalSpecFns;

use super::{doc_open_step, in_doc_comment};
use crate::context::FileContext;
use crate::diagnostic::{concat3, emit, finding, line_span, line_span_of};
use crate::rules::{rule_view, RuleId};
use crate::strs::{decimal, decimal_string};
use crate::text::{contains, seq_contains, seq_starts_with, seq_trim, starts_with, trim, vv};
use crate::types::{diags_view, Diagnostic, DiagnosticView};

verus! {

/// A line holds one of the two SPDX tags.
pub open spec fn has_spdx_tag(l: Seq<u8>) -> bool {
    seq_contains(l, "SPDX-License-Identifier:".spec_bytes()) || seq_contains(
        l,
        "SPDX-FileCopyrightText:".spec_bytes(),
    )
}

/// First line from `i` on that holds an SPDX tag outside a doc comment.
pub open spec fn first_stray_spdx(lb: Seq<Seq<u8>>, i: int) -> Option<int>
    decreases lb.len() - i,
{
    if i < 0 || i >= lb.len() {
        None
    } else if has_spdx_tag(lb[i]) && !in_doc_comment(lb, i) {
        Some(i)
    } else {
        first_stray_spdx(lb, i + 1)
    }
}

/// Findings on SPDX tags (`check_spdx`).
pub open spec fn spdx_findings(src: Seq<u8>, lb: Seq<Seq<u8>>, file: Seq<char>, ls: Seq<Seq<char>>) -> Seq<
    DiagnosticView,
> {
    let has_id = seq_contains(src, "SPDX-License-Identifier:".spec_bytes());
    let has_cr = seq_contains(src, "SPDX-FileCopyrightText:".spec_bytes());
    let a = if has_id {
        Seq::empty()
    } else {
        seq![
            finding(
                RuleId::Lic001,
                line_span_of(file, 1, ls),
                "Missing SPDX-License-Identifier line."@,
                "Every Nirapod source file must declare its license via SPDX."@,
                "Add SPDX-License-Identifier: APACHE-2.0 inside the file-level Doxygen block."@,
            ),
        ]
    };
    let b = if has_cr {
        Seq::empty()
    } else {
        seq![
            finding(
                RuleId::Lic002,
                line_span_of(file, 1, ls),
                "Missing SPDX-FileCopyrightText line."@,
                "Copyright attribution is required for Nirapod source files."@,
                "Add SPDX-FileCopyrightText: 2026 Nirapod Contributors inside the file-level Doxygen block."@,
            ),
        ]
    };
    let c = if has_id || has_cr {
        match first_stray_spdx(lb, 0) {
            Some(i) => seq![
                finding(
                    RuleId::Lic004,
                    line_span_of(file, (i + 1) as usize, ls),
                    "SPDX line found outside the file-level Doxygen block."@,
                    "Nirapod convention keeps SPDX lines inside the file-level documentation block."@,
                    "Move this SPDX line inside the top-level /** ... */ block."@,
                ),
            ],
            None => Seq::empty(),
        }
    } else {
        Seq::empty()
    };
    a + b + c
}

/// A trimmed line that opens an include guard.
pub open spec fn is_include_guard(t: Seq<u8>) -> bool {
    seq_starts_with(t, "#pragma once".spec_bytes()) || seq_starts_with(t, "#ifndef ".spec_bytes())
}

/// First include guard from line `i` on that comes before any line opening a doc block.
pub open spec fn early_guard(lb: Seq<Seq<u8>>, i: int) -> Option<int>
    decreases lb.len() - i,
{
    if i < 0 || i >= lb.len() {
        None
    } else {
        let t = seq_trim(lb[i]);
        if t.len() == 0 || seq_starts_with(t, "//".spec_bytes()) {
            early_guard(lb, i + 1)
        } else if seq_starts_with(t, "/**".spec_bytes()) {
            None
        } else if is_include_guard(t) {
            Some(i)
        } else {
            early_guard(lb, i + 1)
        }
    }
}

/// An include guard above the file-level doc block (`check_header_ordering`).
pub open spec fn ordering_findings(lb: Seq<Seq<u8>>, file: Seq<char>, ls: Seq<Seq<char>>) -> Seq<DiagnosticView> {
    match early_guard(lb, 0) {
        Some(i) => seq![
            finding(
                RuleId::Lic003,
                line_span_of(file, (i + 1) as usize, ls),
                "Include guard found at line "@ + decimal((i + 1) as nat)
                    + " before the file-level Doxygen block."@,
                "The file header must be the first meaningful thing in the file."@,
                "Move the /** @file ... */ block before #pragma once or #ifndef guards."@,
            ),
        ],
        None => Seq::empty(),
    }
}

fn first_stray_spdx_exec(lines: &Vec<Vec<u8>>) -> (r: Option<usize>)
    ensures
        r matches Some(i) ==> first_stray_spdx(vv(lines@), 0) == Some(i as int) && i < lines@.len(),
        r is None ==> first_stray_spdx(vv(lines@), 0) is None,
{
    let ghost lb = vv(lines@);
    let n = lines.len();
    let mut open = false;
    let mut i: usize = 0;
    while i < n
        invariant
            n == lines@.len(),
            lb == vv(lines@),
            i <= n,
            open == super::doc_open_before(lb, i as int),
            first_stray_spdx(lb, 0) == first_stray_spdx(lb, i as int),
        decreases n - i,
    {
        assert(lb[i as int] == lines@[i as int]@);
        let l = lines[i].as_slice();
        let (in_doc, next) = doc_open_step(open, l);
        if (contains(l, "SPDX-License-Identifier:".as_bytes()) || contains(
            l,
            "SPDX-FileCopyrightText:".as_bytes(),
        )) && !in_doc {
            return Some(i);
        }
        open = next;
        i = i + 1;
    }
    None
}

/// Checks the SPDX tags.
pub fn check_spdx(ctx: &FileContext, out: &mut Vec<Diagnostic>)
    requires
        ctx.wf(),
    ensures
        diags_view(final(out)@) == diags_view(old(out)@) + spdx_findings(
            ctx.source@,
            ctx.lb(),
            ctx.path@,
            ctx.ls(),
        ),
{
    let ghost start = diags_view(out@);
    let has_id = contains(ctx.source.as_slice(), "SPDX-License-Identifier:".as_bytes());
    let has_cr = contains(ctx.source.as_slice(), "SPDX-FileCopyrightText:".as_bytes());
    let file = ctx.path.as_str();
    let _n = ctx.line_bytes.len();
    if !has_id {
        emit(
            out,
            RuleId::Lic001,
            line_span(file, 1, &ctx.lines),
            "Missing SPDX-License-Identifier line.".to_owned(),
            "Every Nirapod source file must declare its license via SPDX.",
            "Add SPDX-License-Identifier: APACHE-2.0 inside the file-level Doxygen block.".to_owned(),
        );
    }
    if !has_cr {
        emit(
            out,
            RuleId::Lic002,
            line_span(file, 1, &ctx.lines),
            "Missing SPDX-FileCopyrightText line.".to_owned(),
            "Copyright attribution is required for Nirapod source files.",
            "Add SPDX-FileCopyrightText: 2026 Nirapod Contributors inside the file-level Doxygen block.".to_owned(),
        );
    }
    if has_id || has_cr {
        match first_stray_spdx_exec(&ctx.line_bytes) {
            Some(i) => {
                emit(
                    out,
                    RuleId::Lic004,
                    line_span(file, i + 1, &ctx.lines),
                    "SPDX line found outside the file-level Doxygen block.".to_owned(),
                    "Nirapod convention keeps SPDX lines inside the file-level documentation block.",
                    "Move this SPDX line inside the top-level /** ... */ block.".to_owned(),
                );
            },
            None => {},
        }
    }
    assert(diags_view(out@) =~= start + spdx_findings(ctx.source@, ctx.lb(), ctx.path@, ctx.ls()));
}

fn early_guard_exec(lines: &Vec<Vec<u8>>) -> (r: Option<usize>)
    ensures
        r matches Some(i) ==> early_guard(vv(lines@), 0) == Some(i as int) && i < lines@.len(),
        r is None ==> early_guard(vv(lines@), 0) is None,
{
    let ghost lb = vv(lines@);
    let n = lines.len();
    let mut i: usize = 0;
    while i < n
        invariant
            n == lines@.len(),
            lb == vv(lines@),
            i <= n,
            early_guard(lb, 0) == early_guard(lb, i as int),
        decreases n - i,
    {
        assert(lb[i as int] == lines@[i as int]@);
        let t = trim(lines[i].as_slice());
        let ts = t.as_slice();
        if t.len() == 0 || starts_with(ts, "//".as_bytes()) {
        } else if starts_with(ts, "/**".as_bytes()) {
            return None;
        } else if starts_with(ts, "#pragma once".as_bytes()) || starts_with(ts, "#ifndef ".as_bytes()) {
            return Some(i);
        }
        i = i + 1;
    }
    None
}

/// Checks that no include guard comes before the file-level doc block.
pub fn check_header_ordering(ctx: &FileContext, out: &mut Vec<Diagnostic>)
    requires
        ctx.wf(),
    ensures
        diags_view(final(out)@) == diags_view(old(out)@) + ordering_findings(ctx.lb(), ctx.path@, ctx.ls()),
{
    let ghost start = diags_view(out@);
    let _n = ctx.line_bytes.len();
    match early_guard_exec(&ctx.line_bytes) {
        Some(i) => {
            let n = decimal_string(i + 1);
            emit(
                out,
                RuleId::Lic003,
                line_span(ctx.path.as_str(), i + 1, &ctx.lines),
                concat3("Include guard found at line ", n.as_str(), " before the file-level Doxygen block."),
                "The file header must be the first meaningful thing in the file.",
                "Move the /** @file ... */ block before #pragma once or #ifndef guards.".to_owned(),
            );
        },
        None => {
            assert(diags_view(out@) =~= start + ordering_findings(ctx.lb(), ctx.path@, ctx.ls()));
        },
    }
}

/// Line `i` holds an SPDX tag outside every doc comment.
pub open spec fn stray_spdx_line(lb: Seq<Seq<u8>>, i: int) -> bool {
    has_spdx_tag(lb[i]) && !in_doc_comment(lb, i)
}

/// [`first_stray_spdx`] finds the first line from `i` on whose SPDX tag
/// lies outside every doc comment, and none when there is no such line.
pub proof fn lemma_first_stray_spdx(lb: Seq<Seq<u8>>, i: int)
    requires
        0 <= i,
    ensures
        match first_stray_spdx(lb, i) {
            Some(k) => i <= k < lb.len() && stray_spdx_line(lb, k) && forall|j: int|
                i <= j < k ==> !#[trigger] stray_spdx_line(lb, j),
            None => forall|j: int| i <= j < lb.len() ==> !#[trigger] stray_spdx_line(lb, j),
        },
    decreases lb.len() - i,
{
    if i < lb.len() {
        lemma_first_stray_spdx(lb, i + 1);
    }
}

/// A finding of `rule` is among `f`.
pub open spec fn reports(f: Seq<DiagnosticView>, rule: RuleId) -> bool {
    exists|k: int| 0 <= k < f.len() && #[trigger] f[k].rule == rule_view(rule)
}

/// What the SPDX check reports: a missing license identifier when the file
/// has none, a missing copyright text when it has none, and, when the file
/// has either tag, a misplaced tag exactly when some line holds a tag outside
/// every doc comment, at the first such line.
pub proof fn lemma_spdx_findings(src: Seq<u8>, lb: Seq<Seq<u8>>, file: Seq<char>, ls: Seq<Seq<char>>)
    ensures
        ({
            let f = spdx_findings(src, lb, file, ls);
            let has_id = seq_contains(src, "SPDX-License-Identifier:".spec_bytes());
            let has_cr = seq_contains(src, "SPDX-FileCopyrightText:".spec_bytes());
            &&& reports(f, RuleId::Lic001) <==> !has_id
            &&& reports(f, RuleId::Lic002) <==> !has_cr
            &&& reports(f, RuleId::Lic004) <==> ((has_id || has_cr) && exists|j: int|
                0 <= j < lb.len() && #[trigger] stray_spdx_line(lb, j))
            &&& forall|k: int|
                0 <= k < f.len() && #[trigger] f[k].rule == rule_view(RuleId::Lic004) ==> exists|j: int|
                    0 <= j < lb.len() && stray_spdx_line(lb, j) && (forall|m: int|
                        0 <= m < j ==> !#[trigger] stray_spdx_line(lb, m)) && f[k].span
                        == line_span_of(file, (j + 1) as usize, ls)
        }),
{
    reveal_strlit("NRP-LIC-001");
    reveal_strlit("NRP-LIC-002");
    reveal_strlit("NRP-LIC-004");
    lemma_first_stray_spdx(lb, 0);
    let f = spdx_findings(src, lb, file, ls);
    assert("NRP-LIC-001"@[10] != "NRP-LIC-004"@[10]);
    assert("NRP-LIC-002"@[10] != "NRP-LIC-004"@[10]);
    assert("NRP-LIC-001"@[10] != "NRP-LIC-002"@[10]);
    assert(rule_view(RuleId::Lic001).id != rule_view(RuleId::Lic004).id);
    assert(rule_view(RuleId::Lic002).id != rule_view(RuleId::Lic004).id);
    assert(rule_view(RuleId::Lic001).id != rule_view(RuleId::Lic002).id);
    let has_id = seq_contains(src, "SPDX-License-Identifier:".spec_bytes());
    let has_cr = seq_contains(src, "SPDX-FileCopyrightText:".spec_bytes());
    if !has_id {
        assert(f[0].rule == rule_view(RuleId::Lic001));
    }
    if !has_cr {
        let k = if has_id { 0int } else { 1int };
        assert(f[k].rule == rule_view(RuleId::Lic002));
    }
    if (has_id || has_cr) && first_stray_spdx(lb, 0) is Some {
        let k = f.len() - 1;
        assert(f[k].rule == rule_view(RuleId::Lic004));
    }
}

/// Line `j` is blank or a `//` comment once trimmed.
pub open spec fn blank_or_line_comment(lb: Seq<Seq<u8>>, j: int) -> bool {
    seq_trim(lb[j]).len() == 0 || seq_starts_with(seq_trim(lb[j]), "//".spec_bytes())
}

proof fn lemma_early_guard_from(lb: Seq<Seq<u8>>, a: int, i: int)
    requires
        0 <= a <= i < lb.len(),
        forall|j: int| a <= j < i ==> #[trigger] blank_or_line_comment(lb, j),
        seq_starts_with(seq_trim(lb[i]), "#ifndef ".spec_bytes()) || seq_starts_with(
            seq_trim(lb[i]),
            "#pragma once".spec_bytes(),
        ),
    ensures
        early_guard(lb, a) == Some(i),
    decreases i - a,
{
    reveal_strlit("#ifndef ");
    reveal_strlit("#pragma once");
    reveal_strlit("/**");
    reveal_strlit("//");
    vstd::string::is_ascii_spec_bytes("#ifndef ");
    vstd::string::is_ascii_spec_bytes("#pragma once");
    vstd::string::is_ascii_spec_bytes("/**");
    vstd::string::is_ascii_spec_bytes("//");
    assert(vstd::string::is_ascii("#ifndef ") && vstd::string::is_ascii("#pragma once"));
    assert(vstd::string::is_ascii("/**") && vstd::string::is_ascii("//"));
    if a < i {
        assert(blank_or_line_comment(lb, a));
        lemma_early_guard_from(lb, a + 1, i);
    } else {
        let t = seq_trim(lb[i]);
        let g = "#ifndef ".spec_bytes();
        let q = "#pragma once".spec_bytes();
        assert("#ifndef "@[0] == '#');
        assert("#pragma once"@[0] == '#');
        assert(g[0] == 35u8);
        assert(q[0] == 35u8);
        if seq_starts_with(t, g) {
            assert(t.subrange(0, g.len() as int)[0] == t[0]);
        } else {
            assert(t.subrange(0, q.len() as int)[0] == t[0]);
        }
        assert(t.len() > 0);
        assert(t[0] == 35u8);
        assert("//".spec_bytes()[0] == 47u8);
        assert("/**".spec_bytes()[0] == 47u8);
        if seq_starts_with(t, "//".spec_bytes()) {
            assert(t.subrange(0, 2)[0] == t[0]);
        }
        if seq_starts_with(t, "/**".spec_bytes()) {
            assert(t.subrange(0, 3)[0] == t[0]);
        }
        assert(!seq_starts_with(t, "//".spec_bytes()));
        assert(!seq_starts_with(t, "/**".spec_bytes()));
    }
}

/// An include guard (`#ifndef ` or `#pragma once`) on the first line that is
/// neither blank nor a `//` comment comes before the file-level doc block,
/// and is reported there as misplaced.
pub proof fn lemma_guard_before_header(lb: Seq<Seq<u8>>, i: int, file: Seq<char>, ls: Seq<Seq<char>>)
    requires
        0 <= i < lb.len(),
        forall|j: int| 0 <= j < i ==> #[trigger] blank_or_line_comment(lb, j),
        seq_starts_with(seq_trim(lb[i]), "#ifndef ".spec_bytes()) || seq_starts_with(
            seq_trim(lb[i]),
            "#pragma once".spec_bytes(),
        ),
    ensures
        ordering_findings(lb, file, ls).len() == 1,
        ordering_findings(lb, file, ls)[0].rule == rule_view(RuleId::Lic003),
        ordering_findings(lb, file, ls)[0].span == line_span_of(file, (i + 1) as usize, ls),
{
    lemma_early_guard_from(lb, 0, i);
}

} // verus!
