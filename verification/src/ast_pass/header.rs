//! File-level Doxygen checks: the file header, `module-doc.h` files and
//! group membership of public headers.

use vstd::prelude::*;
use vstd::string::StringSliceAdditionalSpecFns;

use super::docs::{block_has, block_has_exec, first_doc_block, first_doc_block_exec, is_generic_brief, is_generic_brief_exec, tag_content, tag_content_exec};
use super::groups::{collect_group_tags, group_tags};
use crate::context::FileContext;
use crate::diagnostic::{chars_of, concat3, emit, finding, line_span, line_span_of, text_of};
use crate::lex_pass::license::reports;
use crate::rules::{rule_view, RuleId};
use crate::strs::{join, join_strings};
use crate::syntax::{first_in_subtree, subtree_of_kind, NodeView, SyntaxTree};
use crate::text::{bytes_eq, contains, seq_contains, vv};
use crate::types::{diags_view, Diagnostic, DiagnosticView, FileRole, SpanView};

verus! {

/// The metadata tags missing from the block `s..=e`, in a fixed order.
pub open spec fn missing_meta(lb: Seq<Seq<u8>>, s: int, e: int) -> Seq<Seq<char>> {
    (if block_has(lb, s, e, "@author".spec_bytes()) {
        Seq::empty()
    } else {
        seq!["@author"@]
    }) + (if block_has(lb, s, e, "@date".spec_bytes()) {
        Seq::empty()
    } else {
        seq!["@date"@]
    }) + (if block_has(lb, s, e, "@version".spec_bytes()) {
        Seq::empty()
    } else {
        seq!["@version"@]
    })
}

/// Findings on the `@brief` of the header block `s..=e`.
pub open spec fn brief_findings(lb: Seq<Seq<u8>>, s: int, e: int, sp: SpanView) -> Seq<DiagnosticView> {
    let brief = tag_content(lb, s, e, "@brief".spec_bytes());
    if brief.len() == 0 {
        seq![
            finding(
                RuleId::Dox002,
                sp,
                "File header is missing an @brief summary."@,
                "The @brief line should explain what the file does in one sentence."@,
                "Add an @brief line directly under @file with a concrete summary."@,
            ),
        ]
    } else if is_generic_brief(brief) {
        seq![
            finding(
                RuleId::Dox003,
                sp,
                "File @brief is too generic: \""@ + chars_of(brief) + "\"."@,
                "The brief should describe behavior or responsibility, not just the artifact type."@,
                "Rewrite @brief so it names the file's purpose, constraints, or domain role."@,
            ),
        ]
    } else {
        Seq::empty()
    }
}

/// Findings on the file-level doc block (`check_file_header`).
pub open spec fn header_findings(lb: Seq<Seq<u8>>, file: Seq<char>, ls: Seq<Seq<char>>) -> Seq<
    DiagnosticView,
> {
    match first_doc_block(lb) {
        None => seq![
            finding(
                RuleId::Dox001,
                line_span_of(file, 1, ls),
                "No file-level Doxygen block was found."@,
                "Every audited C/C++ file should start with a /** @file ... */ block."@,
                "Add a top-level Doxygen block with @file, @brief, @details, and metadata."@,
            ),
        ],
        Some((s, e)) => {
            let sp = line_span_of(file, (s + 1) as usize, ls);
            if !block_has(lb, s, e, "@file".spec_bytes()) {
                seq![
                    finding(
                        RuleId::Dox001,
                        sp,
                        "Top-level Doxygen block is missing the @file tag."@,
                        "A file header without @file is not treated as the canonical file-level block."@,
                        "Add @file <filename> to the first Doxygen block."@,
                    ),
                ]
            } else {
                let d = if block_has(lb, s, e, "@details".spec_bytes()) {
                    Seq::empty()
                } else {
                    seq![
                        finding(
                            RuleId::Dox004,
                            sp,
                            "File header is missing an @details section."@,
                            "Nirapod file headers carry architecture or protocol context in @details."@,
                            "Add @details with the important design context for this file."@,
                        ),
                    ]
                };
                let m = missing_meta(lb, s, e);
                let md = if m.len() > 0 {
                    seq![
                        finding(
                            RuleId::Dox005,
                            sp,
                            "File header is missing metadata tags: "@ + join(m, ", "@) + "."@,
                            "File-level metadata is required for audit traceability."@,
                            "Add the missing @author, @date, and @version tags to the file header."@,
                        ),
                    ]
                } else {
                    Seq::empty()
                };
                brief_findings(lb, s, e, sp) + d + md
            }
        },
    }
}

/// A `module-doc.h` file must declare a group (`check_module_doc`).
pub open spec fn module_doc_findings(role: FileRole, src: Seq<u8>, file: Seq<char>, ls: Seq<Seq<char>>) -> Seq<
    DiagnosticView,
> {
    if role != FileRole::ModuleDoc || seq_contains(src, "@defgroup".spec_bytes()) {
        Seq::empty()
    } else {
        seq![
            finding(
                RuleId::Dox021,
                line_span_of(file, 1, ls),
                "module-doc.h file has no @defgroup."@,
                "module-doc.h exists specifically to declare a Doxygen group."@,
                "Add a /** @defgroup GroupName Group Title\n * @{ */ block."@,
            ),
        ]
    }
}

/// The tree declares a class, struct, enum or function.
pub open spec fn groupable(t: Seq<NodeView>) -> bool {
    ||| subtree_of_kind(t, 0, "class_specifier".spec_bytes()).len() > 0
    ||| subtree_of_kind(t, 0, "struct_specifier".spec_bytes()).len() > 0
    ||| subtree_of_kind(t, 0, "enum_specifier".spec_bytes()).len() > 0
    ||| exists|k: int|
        0 <= k < subtree_of_kind(t, 0, "declaration".spec_bytes()).len() && (#[trigger] first_in_subtree(
            t,
            subtree_of_kind(t, 0, "declaration".spec_bytes())[k] as int,
            "function_declarator".spec_bytes(),
        )) is Some
}

/// 1-based number of the first line from `k` on holding `@ingroup` and the
/// group name; 1 when there is none.
pub open spec fn tag_line_from(lb: Seq<Seq<u8>>, k: int, group: Seq<u8>) -> usize
    decreases lb.len() - k,
{
    if k < 0 || k >= lb.len() {
        1
    } else if seq_contains(lb[k], "@ingroup".spec_bytes()) && seq_contains(lb[k], group) {
        (k + 1) as usize
    } else {
        tag_line_from(lb, k + 1, group)
    }
}

/// One finding for each `@ingroup` name that no `@defgroup` declares.
pub open spec fn undefined_groups(
    ing: Seq<Seq<u8>>,
    defined: Seq<Seq<u8>>,
    lb: Seq<Seq<u8>>,
    file: Seq<char>,
    ls: Seq<Seq<char>>,
) -> Seq<DiagnosticView>
    decreases ing.len(),
{
    if ing.len() == 0 {
        Seq::empty()
    } else {
        let prev = undefined_groups(ing.drop_last(), defined, lb, file, ls);
        let g = ing.last();
        if defined.contains(g) {
            prev
        } else {
            prev.push(
                finding(
                    RuleId::Dox020,
                    line_span_of(file, tag_line_from(lb, 0, g), ls),
                    "@ingroup '"@ + chars_of(g) + "' references an undefined group."@,
                    "The referenced group must be declared via @defgroup somewhere in the audit target."@,
                    "Define @defgroup "@ + chars_of(g) + " in a module-doc.h file or fix the group name."@,
                ),
            )
        }
    }
}

/// Group membership of a public header (`check_ingroups`).
pub open spec fn ingroup_findings(
    t: Seq<NodeView>,
    src: Seq<u8>,
    defined: Seq<Seq<u8>>,
    lb: Seq<Seq<u8>>,
    file: Seq<char>,
    ls: Seq<Seq<char>>,
) -> Seq<DiagnosticView> {
    if !groupable(t) {
        Seq::empty()
    } else {
        let ing = group_tags(src, "@ingroup".spec_bytes());
        if ing.len() == 0 {
            seq![
                finding(
                    RuleId::Dox019,
                    line_span_of(file, 1, ls),
                    "Header file has no @ingroup tag."@,
                    "Public headers should attach their API surface to a Doxygen group."@,
                    "Add @ingroup GroupName to the file header or symbol-level doc blocks."@,
                ),
            ]
        } else if defined.len() == 0 {
            Seq::empty()
        } else {
            undefined_groups(ing, defined, lb, file, ls)
        }
    }
}

fn missing_meta_exec(lines: &Vec<Vec<u8>>, s: usize, e: usize) -> (r: Vec<String>)
    requires
        s <= e < lines@.len(),
    ensures
        crate::types::strings_view(r@) == missing_meta(vv(lines@), s as int, e as int),
{
    let mut v: Vec<String> = Vec::new();
    if !block_has_exec(lines, s, e, "@author".as_bytes()) {
        v.push("@author".to_owned());
    }
    if !block_has_exec(lines, s, e, "@date".as_bytes()) {
        v.push("@date".to_owned());
    }
    if !block_has_exec(lines, s, e, "@version".as_bytes()) {
        v.push("@version".to_owned());
    }
    assert(crate::types::strings_view(v@) =~= missing_meta(vv(lines@), s as int, e as int));
    v
}

/// Checks the file-level doc block.
pub fn check_file_header(ctx: &FileContext, out: &mut Vec<Diagnostic>)
    requires
        ctx.wf(),
    ensures
        diags_view(final(out)@) == diags_view(old(out)@) + header_findings(ctx.lb(), ctx.path@, ctx.ls()),
{
    let ghost start = diags_view(out@);
    let ghost lb = ctx.lb();
    let file = ctx.path.as_str();
    let lines = &ctx.line_bytes;
    let (s, e) = match first_doc_block_exec(lines) {
        None => {
            emit(
                out,
                RuleId::Dox001,
                line_span(file, 1, &ctx.lines),
                "No file-level Doxygen block was found.".to_owned(),
                "Every audited C/C++ file should start with a /** @file ... */ block.",
                "Add a top-level Doxygen block with @file, @brief, @details, and metadata.".to_owned(),
            );
            assert(diags_view(out@) =~= start + header_findings(lb, ctx.path@, ctx.ls()));
            return;
        },
        Some(p) => p,
    };
    let n = lines.len();
    assert(s < n);
    let sp_line = s + 1;
    if !block_has_exec(lines, s, e, "@file".as_bytes()) {
        emit(
            out,
            RuleId::Dox001,
            line_span(file, sp_line, &ctx.lines),
            "Top-level Doxygen block is missing the @file tag.".to_owned(),
            "A file header without @file is not treated as the canonical file-level block.",
            "Add @file <filename> to the first Doxygen block.".to_owned(),
        );
        assert(diags_view(out@) =~= start + header_findings(lb, ctx.path@, ctx.ls()));
        return;
    }
    let ghost sp = line_span_of(ctx.path@, sp_line, ctx.ls());
    let brief = tag_content_exec(lines, s, e, "@brief".as_bytes());
    if brief.len() == 0 {
        emit(
            out,
            RuleId::Dox002,
            line_span(file, sp_line, &ctx.lines),
            "File header is missing an @brief summary.".to_owned(),
            "The @brief line should explain what the file does in one sentence.",
            "Add an @brief line directly under @file with a concrete summary.".to_owned(),
        );
    } else if is_generic_brief_exec(brief.as_slice()) {
        let b = text_of(brief.as_slice());
        emit(
            out,
            RuleId::Dox003,
            line_span(file, sp_line, &ctx.lines),
            concat3("File @brief is too generic: \"", b.as_str(), "\"."),
            "The brief should describe behavior or responsibility, not just the artifact type.",
            "Rewrite @brief so it names the file's purpose, constraints, or domain role.".to_owned(),
        );
    }
    assert(diags_view(out@) =~= start + brief_findings(lb, s as int, e as int, sp));
    let ghost after_brief = diags_view(out@);
    if !block_has_exec(lines, s, e, "@details".as_bytes()) {
        emit(
            out,
            RuleId::Dox004,
            line_span(file, sp_line, &ctx.lines),
            "File header is missing an @details section.".to_owned(),
            "Nirapod file headers carry architecture or protocol context in @details.",
            "Add @details with the important design context for this file.".to_owned(),
        );
    }
    let ghost after_details = diags_view(out@);
    let missing = missing_meta_exec(lines, s, e);
    if missing.len() > 0 {
        let joined = join_strings(&missing, ", ");
        emit(
            out,
            RuleId::Dox005,
            line_span(file, sp_line, &ctx.lines),
            concat3("File header is missing metadata tags: ", joined.as_str(), "."),
            "File-level metadata is required for audit traceability.",
            "Add the missing @author, @date, and @version tags to the file header.".to_owned(),
        );
    }
    assert(diags_view(out@) =~= start + header_findings(lb, ctx.path@, ctx.ls()));
}

/// Checks that a `module-doc.h` file declares a group.
pub fn check_module_doc(ctx: &FileContext, out: &mut Vec<Diagnostic>)
    requires
        ctx.wf(),
    ensures
        diags_view(final(out)@) == diags_view(old(out)@) + module_doc_findings(
            ctx.role,
            ctx.source@,
            ctx.path@,
            ctx.ls(),
        ),
{
    let ghost start = diags_view(out@);
    if ctx.role != FileRole::ModuleDoc || contains(ctx.source.as_slice(), "@defgroup".as_bytes()) {
        assert(diags_view(out@) =~= start + module_doc_findings(ctx.role, ctx.source@, ctx.path@, ctx.ls()));
        return;
    }
    emit(
        out,
        RuleId::Dox021,
        line_span(ctx.path.as_str(), 1, &ctx.lines),
        "module-doc.h file has no @defgroup.".to_owned(),
        "module-doc.h exists specifically to declare a Doxygen group.",
        "Add a /** @defgroup GroupName Group Title\n * @{ */ block.".to_owned(),
    );
}

fn groupable_exec(tree: &SyntaxTree) -> (r: bool)
    requires
        tree.wf(),
    ensures
        r == groupable(tree@),
{
    if tree.collect_kind(0, "class_specifier".as_bytes()).len() > 0 {
        return true;
    }
    if tree.collect_kind(0, "struct_specifier".as_bytes()).len() > 0 {
        return true;
    }
    if tree.collect_kind(0, "enum_specifier".as_bytes()).len() > 0 {
        return true;
    }
    let decls = tree.collect_kind(0, "declaration".as_bytes());
    let ghost ds = subtree_of_kind(tree@, 0, "declaration".spec_bytes());
    let mut k: usize = 0;
    while k < decls.len()
        invariant
            tree.wf(),
            decls@ == ds,
            ds == subtree_of_kind(tree@, 0, "declaration".spec_bytes()),
            forall|m: int| 0 <= m < decls@.len() ==> 0 <= #[trigger] decls@[m] < tree@[0].end,
            k <= decls@.len(),
            !(subtree_of_kind(tree@, 0, "class_specifier".spec_bytes()).len() > 0),
            !(subtree_of_kind(tree@, 0, "struct_specifier".spec_bytes()).len() > 0),
            !(subtree_of_kind(tree@, 0, "enum_specifier".spec_bytes()).len() > 0),
            forall|m: int|
                0 <= m < k ==> (#[trigger] first_in_subtree(
                    tree@,
                    ds[m] as int,
                    "function_declarator".spec_bytes(),
                )) is None,
        decreases decls@.len() - k,
    {
        let d = decls[k];
        if tree.first_of_kind(d, "function_declarator".as_bytes()).is_some() {
            assert(first_in_subtree(tree@, ds[k as int] as int, "function_declarator".spec_bytes()) is Some);
            return true;
        }
        k = k + 1;
    }
    false
}

fn tag_line_exec(lines: &Vec<Vec<u8>>, group: &[u8]) -> (r: usize)
    ensures
        r == tag_line_from(vv(lines@), 0, group@),
{
    let ghost lb = vv(lines@);
    let n = lines.len();
    let mut k: usize = 0;
    while k < n
        invariant
            n == lines@.len(),
            lb == vv(lines@),
            k <= n,
            tag_line_from(lb, 0, group@) == tag_line_from(lb, k as int, group@),
        decreases n - k,
    {
        assert(lb[k as int] == lines@[k as int]@);
        let l = lines[k].as_slice();
        if contains(l, "@ingroup".as_bytes()) && contains(l, group) {
            return k + 1;
        }
        k = k + 1;
    }
    1
}

fn contains_group(defined: &Vec<Vec<u8>>, g: &[u8]) -> (r: bool)
    ensures
        r == vv(defined@).contains(g@),
{
    let ghost d = vv(defined@);
    let mut k: usize = 0;
    while k < defined.len()
        invariant
            d == vv(defined@),
            k <= defined@.len(),
            forall|m: int| 0 <= m < k ==> d[m] != g@,
        decreases defined@.len() - k,
    {
        if bytes_eq(defined[k].as_slice(), g) {
            assert(d[k as int] == g@);
            return true;
        }
        k = k + 1;
    }
    false
}

/// Checks that a public header joins a declared group.
pub fn check_ingroups(ctx: &FileContext, out: &mut Vec<Diagnostic>)
    requires
        ctx.wf(),
    ensures
        diags_view(final(out)@) == diags_view(old(out)@) + ingroup_findings(
            ctx.tree@,
            ctx.source@,
            vv(ctx.defined_groups@),
            ctx.lb(),
            ctx.path@,
            ctx.ls(),
        ),
{
    let ghost start = diags_view(out@);
    let ghost lb = ctx.lb();
    if !groupable_exec(&ctx.tree) {
        assert(diags_view(out@) =~= start);
        return;
    }
    let ing = collect_group_tags(ctx.source.as_slice(), "@ingroup".as_bytes());
    if ing.len() == 0 {
        emit(
            out,
            RuleId::Dox019,
            line_span(ctx.path.as_str(), 1, &ctx.lines),
            "Header file has no @ingroup tag.".to_owned(),
            "Public headers should attach their API surface to a Doxygen group.",
            "Add @ingroup GroupName to the file header or symbol-level doc blocks.".to_owned(),
        );
        return;
    }
    if ctx.defined_groups.len() == 0 {
        assert(diags_view(out@) =~= start);
        return;
    }
    let ghost ig = vv(ing@);
    let ghost defined = vv(ctx.defined_groups@);
    let mut k: usize = 0;
    while k < ing.len()
        invariant
            ctx.wf(),
            lb == ctx.lb(),
            ig == vv(ing@),
            defined == vv(ctx.defined_groups@),
            k <= ing@.len(),
            diags_view(out@) == start + undefined_groups(
                ig.subrange(0, k as int),
                defined,
                lb,
                ctx.path@,
                ctx.ls(),
            ),
        decreases ing@.len() - k,
    {
        let ghost sub = ig.subrange(0, k + 1);
        assert(sub.drop_last() =~= ig.subrange(0, k as int));
        assert(sub.last() == ing@[k as int]@);
        let g = ing[k].as_slice();
        if !contains_group(&ctx.defined_groups, g) {
            let name = text_of(g);
            let line = tag_line_exec(&ctx.line_bytes, g);
            emit(
                out,
                RuleId::Dox020,
                line_span(ctx.path.as_str(), line, &ctx.lines),
                concat3("@ingroup '", name.as_str(), "' references an undefined group."),
                "The referenced group must be declared via @defgroup somewhere in the audit target.",
                concat3("Define @defgroup ", name.as_str(), " in a module-doc.h file or fix the group name."),
            );
        }
        k = k + 1;
    }
    assert(ig.subrange(0, ing@.len() as int) =~= ig);
}

/// With a header block that has `@file`: a missing `@brief`, a missing
/// `@details` and missing metadata are each reported exactly when they apply.
pub open spec fn header_parts_reported(lb: Seq<Seq<u8>>, f: Seq<DiagnosticView>) -> bool {
    match first_doc_block(lb) {
        Some((s, e)) => {
            &&& reports(f, RuleId::Dox002) <==> tag_content(lb, s, e, "@brief".spec_bytes()).len() == 0
            &&& reports(f, RuleId::Dox004) <==> !block_has(lb, s, e, "@details".spec_bytes())
            &&& reports(f, RuleId::Dox005) <==> missing_meta(lb, s, e).len() > 0
        },
        None => false,
    }
}

/// What the file-header check reports: a missing header or `@file` tag
/// alone, exactly when there is no header block or it lacks `@file`;
/// otherwise at most one of a missing and a generic `@brief`, then a missing
/// `@details`, then missing metadata, each exactly when it applies.
pub proof fn lemma_header_findings(lb: Seq<Seq<u8>>, file: Seq<char>, ls: Seq<Seq<char>>)
    ensures
        ({
            let f = header_findings(lb, file, ls);
            let headed = first_doc_block(lb) matches Some((s, e)) && block_has(lb, s, e, "@file".spec_bytes());
            &&& reports(f, RuleId::Dox001) <==> !headed
            &&& reports(f, RuleId::Dox001) ==> f.len() == 1
            &&& !(reports(f, RuleId::Dox002) && reports(f, RuleId::Dox003))
            &&& headed ==> header_parts_reported(lb, f)
        }),
{
    reveal_strlit("NRP-DOX-001");
    reveal_strlit("NRP-DOX-002");
    reveal_strlit("NRP-DOX-003");
    reveal_strlit("NRP-DOX-004");
    reveal_strlit("NRP-DOX-005");
    let ids = seq![RuleId::Dox001, RuleId::Dox002, RuleId::Dox003, RuleId::Dox004, RuleId::Dox005];
    assert forall|a: int, b: int| 0 <= a < b < 5 implies rule_view(#[trigger] ids[a]) != rule_view(
        #[trigger] ids[b],
    ) by {
        assert(rule_view(ids[a]).id[10] != rule_view(ids[b]).id[10]);
    }
    assert(rule_view(RuleId::Dox001) != rule_view(RuleId::Dox002)) by {
        assert(ids[0] == RuleId::Dox001 && ids[1] == RuleId::Dox002);
    }
    assert(rule_view(RuleId::Dox001) != rule_view(RuleId::Dox003)) by {
        assert(ids[0] == RuleId::Dox001 && ids[2] == RuleId::Dox003);
    }
    assert(rule_view(RuleId::Dox001) != rule_view(RuleId::Dox004)) by {
        assert(ids[0] == RuleId::Dox001 && ids[3] == RuleId::Dox004);
    }
    assert(rule_view(RuleId::Dox001) != rule_view(RuleId::Dox005)) by {
        assert(ids[0] == RuleId::Dox001 && ids[4] == RuleId::Dox005);
    }
    assert(rule_view(RuleId::Dox002) != rule_view(RuleId::Dox003)) by {
        assert(ids[1] == RuleId::Dox002 && ids[2] == RuleId::Dox003);
    }
    assert(rule_view(RuleId::Dox002) != rule_view(RuleId::Dox004)) by {
        assert(ids[1] == RuleId::Dox002 && ids[3] == RuleId::Dox004);
    }
    assert(rule_view(RuleId::Dox002) != rule_view(RuleId::Dox005)) by {
        assert(ids[1] == RuleId::Dox002 && ids[4] == RuleId::Dox005);
    }
    assert(rule_view(RuleId::Dox003) != rule_view(RuleId::Dox004)) by {
        assert(ids[2] == RuleId::Dox003 && ids[3] == RuleId::Dox004);
    }
    assert(rule_view(RuleId::Dox003) != rule_view(RuleId::Dox005)) by {
        assert(ids[2] == RuleId::Dox003 && ids[4] == RuleId::Dox005);
    }
    assert(rule_view(RuleId::Dox004) != rule_view(RuleId::Dox005)) by {
        assert(ids[3] == RuleId::Dox004 && ids[4] == RuleId::Dox005);
    }
    let f = header_findings(lb, file, ls);
    match first_doc_block(lb) {
        None => {
            assert(f[0].rule == rule_view(RuleId::Dox001));
        },
        Some((s, e)) => {
            if !block_has(lb, s, e, "@file".spec_bytes()) {
                assert(f[0].rule == rule_view(RuleId::Dox001));
            } else {
                let sp = line_span_of(file, (s + 1) as usize, ls);
                let b = brief_findings(lb, s, e, sp);
                let brief = tag_content(lb, s, e, "@brief".spec_bytes());
                let nd = if block_has(lb, s, e, "@details".spec_bytes()) { 0int } else { 1int };
                if brief.len() == 0 {
                    assert(f[0].rule == rule_view(RuleId::Dox002));
                } else if is_generic_brief(brief) {
                    assert(f[0].rule == rule_view(RuleId::Dox003));
                }
                if nd == 1 {
                    assert(f[b.len() as int].rule == rule_view(RuleId::Dox004));
                }
                if missing_meta(lb, s, e).len() > 0 {
                    assert(f[b.len() + nd].rule == rule_view(RuleId::Dox005));
                }
            }
        },
    }
}

} // verus!
