//! Declaration-level Doxygen checks for headers: classes, enums, structs and
//! function declarations.

use vstd::prelude::*;
use vstd::string::StringSliceAdditionalSpecFns;

use super::docs::{block_has, block_has_exec, doc_before, doc_before_exec, doc_params_exec, line_or_empty, params_in};
use crate::context::FileContext;
use crate::diagnostic::{chars_of, concat3, emit, finding, node_span_of, node_to_span, text_of};
use crate::rules::{rule_view, RuleId};
use crate::strs::{join, join_strings};
use crate::syntax::{child_by_field, first_in_subtree, node_text, node_wf, subtree_of_kind, NodeView, SyntaxTree};
use crate::text::{bytes_eq, contains, seq_contains, seq_starts_with, seq_trim, seq_trim_start, starts_with, trim, trim_start, vv};
use crate::types::{diags_view, strings_view, Diagnostic, DiagnosticView};

verus! {

/// Text of an optional name, or `fallback` when there is none.
pub open spec fn name_or(o: Option<Seq<u8>>, fallback: Seq<char>) -> Seq<char> {
    match o {
        Some(b) => chars_of(b),
        None => fallback,
    }
}

/// Text of the first identifier in the subtree of `i`.
pub open spec fn first_ident_text(src: Seq<u8>, t: Seq<NodeView>, i: int) -> Option<Seq<u8>> {
    match first_in_subtree(t, i, "identifier".spec_bytes()) {
        Some(k) => node_text(src, t, k as int),
        None => None,
    }
}

/// Text views of byte names.
pub open spec fn chars_all(s: Seq<Seq<u8>>) -> Seq<Seq<char>> {
    Seq::new(s.len(), |i: int| chars_of(s[i]))
}

/// Tags missing from a class doc block, in a fixed order.
pub open spec fn missing_class_tags(lb: Seq<Seq<u8>>, s: int, e: int) -> Seq<Seq<char>> {
    (if block_has(lb, s, e, "@details".spec_bytes()) {
        Seq::empty()
    } else {
        seq!["@details"@]
    }) + (if block_has(lb, s, e, "@see".spec_bytes()) {
        Seq::empty()
    } else {
        seq!["@see"@]
    })
}

/// Findings on one class specifier.
pub open spec fn class_at(ctx: &FileContext, c: int) -> Seq<DiagnosticView> {
    let t = ctx.tree@;
    match child_by_field(t, c, "name".spec_bytes()) {
        None => Seq::empty(),
        Some(nm) => {
            let name = name_or(node_text(ctx.source@, t, nm as int), "class"@);
            let sp = node_span_of(ctx.path@, t[nm as int], ctx.ls());
            match doc_before(ctx.lb(), t[c].start_row as int) {
                None => seq![
                    finding(
                        RuleId::Dox006,
                        sp,
                        "Class '"@ + name + "' has no Doxygen block."@,
                        "Public classes in headers should have a @class block before the declaration."@,
                        "Add a /** @class "@ + name + "\n * @brief ... */ block before the class."@,
                    ),
                ],
                Some((s, e)) => {
                    let m = missing_class_tags(ctx.lb(), s, e);
                    if m.len() > 0 {
                        seq![
                            finding(
                                RuleId::Dox007,
                                sp,
                                "Class '"@ + name + "' doc is incomplete: missing "@ + join(m, ", "@)
                                    + "."@,
                                "Class docs should carry deeper context and cross-references."@,
                                "Add "@ + join(m, ", "@) + " to the @class block."@,
                            ),
                        ]
                    } else {
                        Seq::empty()
                    }
                },
            }
        },
    }
}

/// Findings on the given class specifiers, in order.
pub open spec fn classes_over(ctx: &FileContext, ns: Seq<usize>) -> Seq<DiagnosticView>
    decreases ns.len(),
{
    if ns.len() == 0 {
        Seq::empty()
    } else {
        classes_over(ctx, ns.drop_last()) + class_at(ctx, ns.last() as int)
    }
}

/// Findings on every class specifier of the file (`check_classes`).
pub open spec fn class_findings(ctx: &FileContext) -> Seq<DiagnosticView> {
    classes_over(ctx, subtree_of_kind(ctx.tree@, 0, "class_specifier".spec_bytes()))
}

/// Findings on one enum specifier.
pub open spec fn enum_at(ctx: &FileContext, en: int) -> Seq<DiagnosticView> {
    let t = ctx.tree@;
    match child_by_field(t, en, "name".spec_bytes()) {
        None => Seq::empty(),
        Some(nm) => {
            let name = name_or(node_text(ctx.source@, t, nm as int), "enum"@);
            let a = if doc_before(ctx.lb(), t[en].start_row as int) is None {
                seq![
                    finding(
                        RuleId::Dox010,
                        node_span_of(ctx.path@, t[nm as int], ctx.ls()),
                        "Enum '"@ + name + "' has no Doxygen block."@,
                        "Public enums should have a @enum block before the declaration."@,
                        "Add a /** @enum "@ + name + "\n * @brief ... */ block before the enum."@,
                    ),
                ]
            } else {
                Seq::empty()
            };
            let l = line_or_empty(ctx.lb(), t[en].start_row as int);
            let b = if ctx.is_cpp && !seq_contains(l, "enum class".spec_bytes()) && !seq_contains(
                l,
                "enum struct".spec_bytes(),
            ) {
                seq![
                    finding(
                        RuleId::Dox011,
                        node_span_of(ctx.path@, t[en], ctx.ls()),
                        "Enum '"@ + name + "' is a plain enum, not enum class."@,
                        "Scoped enums avoid namespace pollution and implicit conversions."@,
                        "Change this declaration to 'enum class "@ + name + "'."@,
                    ),
                ]
            } else {
                Seq::empty()
            };
            a + b
        },
    }
}

/// Findings on the given enum specifiers, in order.
pub open spec fn enums_over(ctx: &FileContext, ns: Seq<usize>) -> Seq<DiagnosticView>
    decreases ns.len(),
{
    if ns.len() == 0 {
        Seq::empty()
    } else {
        enums_over(ctx, ns.drop_last()) + enum_at(ctx, ns.last() as int)
    }
}

/// Findings on every enum specifier of the file (`check_enums`).
pub open spec fn enum_findings(ctx: &FileContext) -> Seq<DiagnosticView> {
    enums_over(ctx, subtree_of_kind(ctx.tree@, 0, "enum_specifier".spec_bytes()))
}

/// A struct field is documented by `///<` on its last line or at the start of the next.
pub open spec fn field_at(ctx: &FileContext, f: int) -> Seq<DiagnosticView> {
    let t = ctx.tree@;
    let row = t[f].end_row as int;
    let inline = line_or_empty(ctx.lb(), row);
    let next = line_or_empty(ctx.lb(), row + 1);
    if seq_contains(inline, "///<".spec_bytes()) || seq_starts_with(
        seq_trim_start(next),
        "///<".spec_bytes(),
    ) {
        Seq::empty()
    } else {
        let name = name_or(first_ident_text(ctx.source@, t, f), "unnamed"@);
        seq![
            finding(
                RuleId::Dox009,
                node_span_of(ctx.path@, t[f], ctx.ls()),
                "Struct field '"@ + name + "' has no ///< inline documentation."@,
                "Public struct fields should document units, ranges, or wire semantics."@,
                "Add a ///< comment after the field declaration."@,
            ),
        ]
    }
}

/// Findings on the given field declarations, in order.
pub open spec fn fields_over(ctx: &FileContext, ns: Seq<usize>) -> Seq<DiagnosticView>
    decreases ns.len(),
{
    if ns.len() == 0 {
        Seq::empty()
    } else {
        fields_over(ctx, ns.drop_last()) + field_at(ctx, ns.last() as int)
    }
}

/// Findings on one struct specifier and its fields.
pub open spec fn struct_at(ctx: &FileContext, st: int) -> Seq<DiagnosticView> {
    let t = ctx.tree@;
    match child_by_field(t, st, "name".spec_bytes()) {
        None => Seq::empty(),
        Some(nm) => {
            let name = name_or(node_text(ctx.source@, t, nm as int), "struct"@);
            let a = if doc_before(ctx.lb(), t[st].start_row as int) is None {
                seq![
                    finding(
                        RuleId::Dox008,
                        node_span_of(ctx.path@, t[nm as int], ctx.ls()),
                        "Struct '"@ + name + "' has no Doxygen block."@,
                        "Public structs in headers need a @struct block before the declaration."@,
                        "Add a /** @struct "@ + name + "\n * @brief ... */ block before the struct."@,
                    ),
                ]
            } else {
                Seq::empty()
            };
            a + fields_over(ctx, subtree_of_kind(t, st, "field_declaration".spec_bytes()))
        },
    }
}

/// Findings on the given struct specifiers, in order.
pub open spec fn structs_over(ctx: &FileContext, ns: Seq<usize>) -> Seq<DiagnosticView>
    decreases ns.len(),
{
    if ns.len() == 0 {
        Seq::empty()
    } else {
        structs_over(ctx, ns.drop_last()) + struct_at(ctx, ns.last() as int)
    }
}

/// Findings on every struct specifier of the file (`check_structs`).
pub open spec fn struct_findings(ctx: &FileContext) -> Seq<DiagnosticView> {
    structs_over(ctx, subtree_of_kind(ctx.tree@, 0, "struct_specifier".spec_bytes()))
}

/// Names of the given parameter declarations, skipping `void` and unnamed ones.
pub open spec fn source_params(src: Seq<u8>, t: Seq<NodeView>, ps: Seq<usize>) -> Seq<Seq<u8>>
    decreases ps.len(),
{
    if ps.len() == 0 {
        Seq::empty()
    } else {
        let prev = source_params(src, t, ps.drop_last());
        let p = ps.last() as int;
        match node_text(src, t, p) {
            None => prev,
            Some(x) => if seq_trim(x) == "void".spec_bytes() {
                prev
            } else {
                match first_ident_text(src, t, p) {
                    Some(n) => prev.push(n),
                    None => prev,
                }
            },
        }
    }
}

/// The members of `names` that `documented` does not hold, in order.
pub open spec fn missing_names(names: Seq<Seq<u8>>, documented: Seq<Seq<u8>>) -> Seq<Seq<u8>>
    decreases names.len(),
{
    if names.len() == 0 {
        Seq::empty()
    } else {
        let prev = missing_names(names.drop_last(), documented);
        if documented.contains(names.last()) {
            prev
        } else {
            prev.push(names.last())
        }
    }
}

/// The declared return type of `d` reads `void`.
pub open spec fn returns_void(src: Seq<u8>, t: Seq<NodeView>, d: int) -> bool {
    match child_by_field(t, d, "type".spec_bytes()) {
        Some(ty) => match node_text(src, t, ty as int) {
            Some(x) => seq_trim(x) == "void".spec_bytes(),
            None => false,
        },
        None => false,
    }
}

/// Findings on the doc block `s..=e` of function `name` declared by `d`.
pub open spec fn fn_doc_findings(
    ctx: &FileContext,
    d: int,
    fd: int,
    name: Seq<char>,
    sp: crate::types::SpanView,
    s: int,
    e: int,
) -> Seq<DiagnosticView> {
    let lb = ctx.lb();
    let t = ctx.tree@;
    let a = if block_has(lb, s, e, "@brief".spec_bytes()) {
        Seq::empty()
    } else {
        seq![
            finding(
                RuleId::Dox013,
                sp,
                "Function '"@ + name + "' doc block has no @brief."@,
                "Every documented function needs a one-line summary."@,
                "Add @brief with a one-sentence description of the function."@,
            ),
        ]
    };
    let missing = missing_names(
        source_params(ctx.source@, t, subtree_of_kind(t, fd, "parameter_declaration".spec_bytes())),
        params_in(lb, s, e + 1),
    );
    let j = join(chars_all(missing), ", "@);
    let b = if missing.len() > 0 {
        seq![
            finding(
                RuleId::Dox014,
                sp,
                "Function '"@ + name + "' is missing @param for: "@ + j + "."@,
                "Every declared parameter should appear in the Doxygen contract."@,
                "Add @param entries for "@ + j + "."@,
            ),
        ]
    } else {
        Seq::empty()
    };
    let c = if !returns_void(ctx.source@, t, d) && !block_has(lb, s, e, "@return".spec_bytes())
        && !block_has(lb, s, e, "@retval".spec_bytes()) {
        seq![
            finding(
                RuleId::Dox015,
                sp,
                "Function '"@ + name + "' returns non-void but has no @return."@,
                "Return-value semantics need to be documented for callers."@,
                "Add @return documenting success values and error codes."@,
            ),
        ]
    } else {
        Seq::empty()
    };
    let p = if !block_has(lb, s, e, "@pre".spec_bytes()) && !block_has(lb, s, e, "@post".spec_bytes()) {
        seq![
            finding(
                RuleId::Dox017,
                sp,
                "Function '"@ + name + "' is missing @pre/@post contract documentation."@,
                "Public APIs should document preconditions or postconditions."@,
                "Add @pre and/or @post to describe the function contract."@,
            ),
        ]
    } else {
        Seq::empty()
    };
    let q = if block_has(lb, s, e, "@see".spec_bytes()) {
        Seq::empty()
    } else {
        seq![
            finding(
                RuleId::Dox018,
                sp,
                "Function '"@ + name + "' has no @see cross-reference."@,
                "Cross-references help readers navigate related APIs."@,
                "Add @see with related functions, types, or external references."@,
            ),
        ]
    };
    a + b + c + p + q
}

/// Findings on one declaration that declares a function.
pub open spec fn fn_decl_at(ctx: &FileContext, d: int) -> Seq<DiagnosticView> {
    let t = ctx.tree@;
    match first_in_subtree(t, d, "function_declarator".spec_bytes()) {
        None => Seq::empty(),
        Some(fd) => match first_in_subtree(t, fd as int, "identifier".spec_bytes()) {
            None => Seq::empty(),
            Some(nm) => {
                let name = name_or(node_text(ctx.source@, t, nm as int), "function"@);
                let sp = node_span_of(ctx.path@, t[nm as int], ctx.ls());
                match doc_before(ctx.lb(), t[d].start_row as int) {
                    None => seq![
                        finding(
                            RuleId::Dox012,
                            sp,
                            "Function '"@ + name + "' has no Doxygen block."@,
                            "Public declarations in headers should have a Doxygen block immediately above them."@,
                            "Add a /** @brief ...\n * @param ...\n * @return ... */ block."@,
                        ),
                    ],
                    Some((s, e)) => fn_doc_findings(ctx, d, fd as int, name, sp, s, e),
                }
            },
        },
    }
}

/// Findings on the given declarations, in order.
pub open spec fn fn_decls_over(ctx: &FileContext, ns: Seq<usize>) -> Seq<DiagnosticView>
    decreases ns.len(),
{
    if ns.len() == 0 {
        Seq::empty()
    } else {
        fn_decls_over(ctx, ns.drop_last()) + fn_decl_at(ctx, ns.last() as int)
    }
}

/// Findings on every function declaration of the file (`check_function_declarations`).
pub open spec fn fn_decl_findings(ctx: &FileContext) -> Seq<DiagnosticView> {
    fn_decls_over(ctx, subtree_of_kind(ctx.tree@, 0, "declaration".spec_bytes()))
}

fn name_text(ctx: &FileContext, i: usize, fallback: &str) -> (r: String)
    requires
        ctx.wf(),
        i < ctx.tree@.len(),
    ensures
        r@ == name_or(node_text(ctx.source@, ctx.tree@, i as int), fallback@),
{
    match ctx.tree.text(ctx.source.as_slice(), i) {
        Some(b) => text_of(b.as_slice()),
        None => fallback.to_owned(),
    }
}

fn first_ident_text_exec(ctx: &FileContext, i: usize) -> (r: Option<Vec<u8>>)
    requires
        ctx.wf(),
        i < ctx.tree@.len(),
    ensures
        r matches Some(v) ==> first_ident_text(ctx.source@, ctx.tree@, i as int) == Some(v@),
        r is None ==> first_ident_text(ctx.source@, ctx.tree@, i as int) is None,
{
    assert(node_wf(ctx.tree@, i as int));
    match ctx.tree.first_of_kind(i, "identifier".as_bytes()) {
        Some(k) => ctx.tree.text(ctx.source.as_slice(), k),
        None => None,
    }
}

fn missing_class_exec(lines: &Vec<Vec<u8>>, s: usize, e: usize) -> (r: Vec<String>)
    requires
        s <= e < lines@.len(),
    ensures
        strings_view(r@) == missing_class_tags(vv(lines@), s as int, e as int),
{
    let mut v: Vec<String> = Vec::new();
    if !block_has_exec(lines, s, e, "@details".as_bytes()) {
        v.push("@details".to_owned());
    }
    if !block_has_exec(lines, s, e, "@see".as_bytes()) {
        v.push("@see".to_owned());
    }
    assert(strings_view(v@) =~= missing_class_tags(vv(lines@), s as int, e as int));
    v
}

fn class_one(ctx: &FileContext, c: usize, out: &mut Vec<Diagnostic>)
    requires
        ctx.wf(),
        c < ctx.tree@.len(),
    ensures
        diags_view(final(out)@) == diags_view(old(out)@) + class_at(ctx, c as int),
{
    let ghost start = diags_view(out@);
    assert(node_wf(ctx.tree@, c as int));
    let nm = match ctx.tree.child_by_field(c, "name".as_bytes()) {
        None => {
            assert(diags_view(out@) =~= start + class_at(ctx, c as int));
            return;
        },
        Some(n) => n,
    };
    let name = name_text(ctx, nm, "class");
    let row = ctx.tree.nodes[c].start_row;
    match doc_before_exec(&ctx.line_bytes, row) {
        None => {
            emit(
                out,
                RuleId::Dox006,
                node_to_span(&ctx.tree, nm, ctx.path.as_str(), &ctx.lines),
                concat3("Class '", name.as_str(), "' has no Doxygen block."),
                "Public classes in headers should have a @class block before the declaration.",
                concat3("Add a /** @class ", name.as_str(), "\n * @brief ... */ block before the class."),
            );
        },
        Some((s, e)) => {
            let m = missing_class_exec(&ctx.line_bytes, s, e);
            if m.len() > 0 {
                let j = join_strings(&m, ", ");
                let head = concat3("Class '", name.as_str(), "' doc is incomplete: missing ");
                emit(
                    out,
                    RuleId::Dox007,
                    node_to_span(&ctx.tree, nm, ctx.path.as_str(), &ctx.lines),
                    concat3(head.as_str(), j.as_str(), "."),
                    "Class docs should carry deeper context and cross-references.",
                    concat3("Add ", j.as_str(), " to the @class block."),
                );
            } else {
                assert(diags_view(out@) =~= start + class_at(ctx, c as int));
            }
        },
    }
}

/// Checks the doc blocks of class specifiers.
pub fn check_classes(ctx: &FileContext, out: &mut Vec<Diagnostic>)
    requires
        ctx.wf(),
    ensures
        diags_view(final(out)@) == diags_view(old(out)@) + class_findings(ctx),
{
    let ghost start = diags_view(out@);
    let ns = ctx.tree.collect_kind(0, "class_specifier".as_bytes());
    let mut k: usize = 0;
    while k < ns.len()
        invariant
            ctx.wf(),
            ns@ == subtree_of_kind(ctx.tree@, 0, "class_specifier".spec_bytes()),
            forall|m: int| 0 <= m < ns@.len() ==> 0 <= #[trigger] ns@[m] < ctx.tree@[0].end,
            k <= ns@.len(),
            diags_view(out@) == start + classes_over(ctx, ns@.subrange(0, k as int)),
        decreases ns@.len() - k,
    {
        class_one(ctx, ns[k], out);
        assert(ns@.subrange(0, k + 1).drop_last() =~= ns@.subrange(0, k as int));
        k = k + 1;
    }
    assert(ns@.subrange(0, ns@.len() as int) =~= ns@);
}

fn line_at(lines: &Vec<Vec<u8>>, i: usize) -> (r: Vec<u8>)
    ensures
        r@ == line_or_empty(vv(lines@), i as int),
{
    if i < lines.len() {
        crate::text::copy_range(lines[i].as_slice(), 0, lines[i].len())
    } else {
        Vec::new()
    }
}

fn enum_one(ctx: &FileContext, en: usize, out: &mut Vec<Diagnostic>)
    requires
        ctx.wf(),
        en < ctx.tree@.len(),
    ensures
        diags_view(final(out)@) == diags_view(old(out)@) + enum_at(ctx, en as int),
{
    let ghost start = diags_view(out@);
    assert(node_wf(ctx.tree@, en as int));
    let nm = match ctx.tree.child_by_field(en, "name".as_bytes()) {
        None => {
            assert(diags_view(out@) =~= start + enum_at(ctx, en as int));
            return;
        },
        Some(n) => n,
    };
    let name = name_text(ctx, nm, "enum");
    let row = ctx.tree.nodes[en].start_row;
    if doc_before_exec(&ctx.line_bytes, row).is_none() {
        emit(
            out,
            RuleId::Dox010,
            node_to_span(&ctx.tree, nm, ctx.path.as_str(), &ctx.lines),
            concat3("Enum '", name.as_str(), "' has no Doxygen block."),
            "Public enums should have a @enum block before the declaration.",
            concat3("Add a /** @enum ", name.as_str(), "\n * @brief ... */ block before the enum."),
        );
    }
    let ghost mid = diags_view(out@);
    let l = line_at(&ctx.line_bytes, row);
    if ctx.is_cpp && !contains(l.as_slice(), "enum class".as_bytes()) && !contains(
        l.as_slice(),
        "enum struct".as_bytes(),
    ) {
        emit(
            out,
            RuleId::Dox011,
            node_to_span(&ctx.tree, en, ctx.path.as_str(), &ctx.lines),
            concat3("Enum '", name.as_str(), "' is a plain enum, not enum class."),
            "Scoped enums avoid namespace pollution and implicit conversions.",
            concat3("Change this declaration to 'enum class ", name.as_str(), "'."),
        );
    }
    assert(diags_view(out@) =~= start + enum_at(ctx, en as int));
}

/// Checks the doc blocks and scoping of enum specifiers.
pub fn check_enums(ctx: &FileContext, out: &mut Vec<Diagnostic>)
    requires
        ctx.wf(),
    ensures
        diags_view(final(out)@) == diags_view(old(out)@) + enum_findings(ctx),
{
    let ghost start = diags_view(out@);
    let ns = ctx.tree.collect_kind(0, "enum_specifier".as_bytes());
    let mut k: usize = 0;
    while k < ns.len()
        invariant
            ctx.wf(),
            ns@ == subtree_of_kind(ctx.tree@, 0, "enum_specifier".spec_bytes()),
            forall|m: int| 0 <= m < ns@.len() ==> 0 <= #[trigger] ns@[m] < ctx.tree@[0].end,
            k <= ns@.len(),
            diags_view(out@) == start + enums_over(ctx, ns@.subrange(0, k as int)),
        decreases ns@.len() - k,
    {
        enum_one(ctx, ns[k], out);
        assert(ns@.subrange(0, k + 1).drop_last() =~= ns@.subrange(0, k as int));
        k = k + 1;
    }
    assert(ns@.subrange(0, ns@.len() as int) =~= ns@);
}

fn field_one(ctx: &FileContext, f: usize, out: &mut Vec<Diagnostic>)
    requires
        ctx.wf(),
        f < ctx.tree@.len(),
    ensures
        diags_view(final(out)@) == diags_view(old(out)@) + field_at(ctx, f as int),
{
    let ghost start = diags_view(out@);
    let row = ctx.tree.nodes[f].end_row;
    let inline = line_at(&ctx.line_bytes, row);
    let next: Vec<u8> = if row < ctx.line_bytes.len() {
        line_at(&ctx.line_bytes, row + 1)
    } else {
        Vec::new()
    };
    assert(next@ == line_or_empty(ctx.lb(), row + 1));
    let nt = trim_start(next.as_slice());
    if contains(inline.as_slice(), "///<".as_bytes()) || starts_with(nt.as_slice(), "///<".as_bytes()) {
        assert(diags_view(out@) =~= start + field_at(ctx, f as int));
        return;
    }
    let name: String = match first_ident_text_exec(ctx, f) {
        Some(b) => text_of(b.as_slice()),
        None => "unnamed".to_owned(),
    };
    emit(
        out,
        RuleId::Dox009,
        node_to_span(&ctx.tree, f, ctx.path.as_str(), &ctx.lines),
        concat3("Struct field '", name.as_str(), "' has no ///< inline documentation."),
        "Public struct fields should document units, ranges, or wire semantics.",
        "Add a ///< comment after the field declaration.".to_owned(),
    );
}

fn struct_one(ctx: &FileContext, st: usize, out: &mut Vec<Diagnostic>)
    requires
        ctx.wf(),
        st < ctx.tree@.len(),
    ensures
        diags_view(final(out)@) == diags_view(old(out)@) + struct_at(ctx, st as int),
{
    let ghost start = diags_view(out@);
    assert(node_wf(ctx.tree@, st as int));
    let nm = match ctx.tree.child_by_field(st, "name".as_bytes()) {
        None => {
            assert(diags_view(out@) =~= start + struct_at(ctx, st as int));
            return;
        },
        Some(n) => n,
    };
    let name = name_text(ctx, nm, "struct");
    let row = ctx.tree.nodes[st].start_row;
    if doc_before_exec(&ctx.line_bytes, row).is_none() {
        emit(
            out,
            RuleId::Dox008,
            node_to_span(&ctx.tree, nm, ctx.path.as_str(), &ctx.lines),
            concat3("Struct '", name.as_str(), "' has no Doxygen block."),
            "Public structs in headers need a @struct block before the declaration.",
            concat3("Add a /** @struct ", name.as_str(), "\n * @brief ... */ block before the struct."),
        );
    }
    let ghost mid = diags_view(out@);
    let fs = ctx.tree.collect_kind(st, "field_declaration".as_bytes());
    let mut k: usize = 0;
    while k < fs.len()
        invariant
            ctx.wf(),
            st < ctx.tree@.len(),
            fs@ == subtree_of_kind(ctx.tree@, st as int, "field_declaration".spec_bytes()),
            forall|m: int| 0 <= m < fs@.len() ==> st <= #[trigger] fs@[m] < ctx.tree@[st as int].end,
            ctx.tree@[st as int].end <= ctx.tree@.len(),
            k <= fs@.len(),
            diags_view(out@) == mid + fields_over(ctx, fs@.subrange(0, k as int)),
        decreases fs@.len() - k,
    {
        field_one(ctx, fs[k], out);
        assert(fs@.subrange(0, k + 1).drop_last() =~= fs@.subrange(0, k as int));
        k = k + 1;
    }
    assert(fs@.subrange(0, fs@.len() as int) =~= fs@);
    assert(diags_view(out@) =~= start + struct_at(ctx, st as int));
}

/// Checks the doc blocks of struct specifiers and their fields.
pub fn check_structs(ctx: &FileContext, out: &mut Vec<Diagnostic>)
    requires
        ctx.wf(),
    ensures
        diags_view(final(out)@) == diags_view(old(out)@) + struct_findings(ctx),
{
    let ghost start = diags_view(out@);
    let ns = ctx.tree.collect_kind(0, "struct_specifier".as_bytes());
    let mut k: usize = 0;
    while k < ns.len()
        invariant
            ctx.wf(),
            ns@ == subtree_of_kind(ctx.tree@, 0, "struct_specifier".spec_bytes()),
            forall|m: int| 0 <= m < ns@.len() ==> 0 <= #[trigger] ns@[m] < ctx.tree@[0].end,
            k <= ns@.len(),
            diags_view(out@) == start + structs_over(ctx, ns@.subrange(0, k as int)),
        decreases ns@.len() - k,
    {
        struct_one(ctx, ns[k], out);
        assert(ns@.subrange(0, k + 1).drop_last() =~= ns@.subrange(0, k as int));
        k = k + 1;
    }
    assert(ns@.subrange(0, ns@.len() as int) =~= ns@);
}

fn source_params_exec(ctx: &FileContext, fd: usize) -> (r: Vec<Vec<u8>>)
    requires
        ctx.wf(),
        fd < ctx.tree@.len(),
    ensures
        vv(r@) == source_params(
            ctx.source@,
            ctx.tree@,
            subtree_of_kind(ctx.tree@, fd as int, "parameter_declaration".spec_bytes()),
        ),
{
    assert(node_wf(ctx.tree@, fd as int));
    let ps = ctx.tree.collect_kind(fd, "parameter_declaration".as_bytes());
    let mut out: Vec<Vec<u8>> = Vec::new();
    let mut k: usize = 0;
    while k < ps.len()
        invariant
            ctx.wf(),
            fd < ctx.tree@.len(),
            ctx.tree@[fd as int].end <= ctx.tree@.len(),
            ps@ == subtree_of_kind(ctx.tree@, fd as int, "parameter_declaration".spec_bytes()),
            forall|m: int| 0 <= m < ps@.len() ==> fd <= #[trigger] ps@[m] < ctx.tree@[fd as int].end,
            k <= ps@.len(),
            vv(out@) == source_params(ctx.source@, ctx.tree@, ps@.subrange(0, k as int)),
        decreases ps@.len() - k,
    {
        let p = ps[k];
        let ghost prev = vv(out@);
        assert(ps@.subrange(0, k + 1).drop_last() =~= ps@.subrange(0, k as int));
        assert(ps@.subrange(0, k + 1).last() == p);
        match ctx.tree.text(ctx.source.as_slice(), p) {
            None => {},
            Some(x) => {
                let tx = trim(x.as_slice());
                if !bytes_eq(tx.as_slice(), "void".as_bytes()) {
                    match first_ident_text_exec(ctx, p) {
                        Some(n) => {
                            out.push(n);
                            assert(vv(out@) =~= prev.push(n@));
                        },
                        None => {},
                    }
                }
            },
        }
        k = k + 1;
    }
    assert(ps@.subrange(0, ps@.len() as int) =~= ps@);
    out
}

fn has_name(names: &Vec<Vec<u8>>, g: &[u8]) -> (r: bool)
    ensures
        r == vv(names@).contains(g@),
{
    let ghost d = vv(names@);
    let mut k: usize = 0;
    while k < names.len()
        invariant
            d == vv(names@),
            k <= names@.len(),
            forall|m: int| 0 <= m < k ==> d[m] != g@,
        decreases names@.len() - k,
    {
        if bytes_eq(names[k].as_slice(), g) {
            assert(d[k as int] == g@);
            return true;
        }
        k = k + 1;
    }
    false
}

fn missing_names_exec(names: &Vec<Vec<u8>>, documented: &Vec<Vec<u8>>) -> (r: Vec<String>)
    ensures
        strings_view(r@) == chars_all(missing_names(vv(names@), vv(documented@))),
        r@.len() == missing_names(vv(names@), vv(documented@)).len(),
{
    let ghost ns = vv(names@);
    let ghost ds = vv(documented@);
    let mut out: Vec<String> = Vec::new();
    let mut k: usize = 0;
    while k < names.len()
        invariant
            ns == vv(names@),
            ds == vv(documented@),
            k <= names@.len(),
            strings_view(out@) == chars_all(missing_names(ns.subrange(0, k as int), ds)),
            out@.len() == missing_names(ns.subrange(0, k as int), ds).len(),
        decreases names@.len() - k,
    {
        let ghost prevm = missing_names(ns.subrange(0, k as int), ds);
        let ghost prev = strings_view(out@);
        assert(ns.subrange(0, k + 1).drop_last() =~= ns.subrange(0, k as int));
        assert(ns.subrange(0, k + 1).last() == names@[k as int]@);
        if !has_name(documented, names[k].as_slice()) {
            let t = text_of(names[k].as_slice());
            out.push(t);
            assert(strings_view(out@) =~= prev.push(t@));
            assert(chars_all(prevm.push(names@[k as int]@)) =~= chars_all(prevm).push(t@));
        }
        k = k + 1;
    }
    assert(ns.subrange(0, names@.len() as int) =~= ns);
    out
}

pub fn returns_void_exec(ctx: &FileContext, d: usize) -> (r: bool)
    requires
        ctx.wf(),
        d < ctx.tree@.len(),
    ensures
        r == returns_void(ctx.source@, ctx.tree@, d as int),
{
    assert(node_wf(ctx.tree@, d as int));
    match ctx.tree.child_by_field(d, "type".as_bytes()) {
        Some(ty) => match ctx.tree.text(ctx.source.as_slice(), ty) {
            Some(x) => {
                let t = trim(x.as_slice());
                bytes_eq(t.as_slice(), "void".as_bytes())
            },
            None => false,
        },
        None => false,
    }
}

fn fn_doc_one(
    ctx: &FileContext,
    d: usize,
    fd: usize,
    name: &str,
    nm: usize,
    s: usize,
    e: usize,
    out: &mut Vec<Diagnostic>,
)
    requires
        ctx.wf(),
        d < ctx.tree@.len(),
        fd < ctx.tree@.len(),
        nm < ctx.tree@.len(),
        s <= e < ctx.line_bytes@.len(),
    ensures
        diags_view(final(out)@) == diags_view(old(out)@) + fn_doc_findings(
            ctx,
            d as int,
            fd as int,
            name@,
            node_span_of(ctx.path@, ctx.tree@[nm as int], ctx.ls()),
            s as int,
            e as int,
        ),
{
    let ghost start = diags_view(out@);
    let lines = &ctx.line_bytes;
    let file = ctx.path.as_str();
    if !block_has_exec(lines, s, e, "@brief".as_bytes()) {
        emit(
            out,
            RuleId::Dox013,
            node_to_span(&ctx.tree, nm, file, &ctx.lines),
            concat3("Function '", name, "' doc block has no @brief."),
            "Every documented function needs a one-line summary.",
            "Add @brief with a one-sentence description of the function.".to_owned(),
        );
    }
    let ghost a = diags_view(out@);
    let sp = source_params_exec(ctx, fd);
    let dp = doc_params_exec(lines, s, e);
    let missing = missing_names_exec(&sp, &dp);
    if missing.len() > 0 {
        let j = join_strings(&missing, ", ");
        let head = concat3("Function '", name, "' is missing @param for: ");
        emit(
            out,
            RuleId::Dox014,
            node_to_span(&ctx.tree, nm, file, &ctx.lines),
            concat3(head.as_str(), j.as_str(), "."),
            "Every declared parameter should appear in the Doxygen contract.",
            concat3("Add @param entries for ", j.as_str(), "."),
        );
    }
    let ghost b = diags_view(out@);
    if !returns_void_exec(ctx, d) && !block_has_exec(lines, s, e, "@return".as_bytes())
        && !block_has_exec(lines, s, e, "@retval".as_bytes()) {
        emit(
            out,
            RuleId::Dox015,
            node_to_span(&ctx.tree, nm, file, &ctx.lines),
            concat3("Function '", name, "' returns non-void but has no @return."),
            "Return-value semantics need to be documented for callers.",
            "Add @return documenting success values and error codes.".to_owned(),
        );
    }
    let ghost c = diags_view(out@);
    if !block_has_exec(lines, s, e, "@pre".as_bytes()) && !block_has_exec(
        lines,
        s,
        e,
        "@post".as_bytes(),
    ) {
        emit(
            out,
            RuleId::Dox017,
            node_to_span(&ctx.tree, nm, file, &ctx.lines),
            concat3("Function '", name, "' is missing @pre/@post contract documentation."),
            "Public APIs should document preconditions or postconditions.",
            "Add @pre and/or @post to describe the function contract.".to_owned(),
        );
    }
    let ghost p = diags_view(out@);
    if !block_has_exec(lines, s, e, "@see".as_bytes()) {
        emit(
            out,
            RuleId::Dox018,
            node_to_span(&ctx.tree, nm, file, &ctx.lines),
            concat3("Function '", name, "' has no @see cross-reference."),
            "Cross-references help readers navigate related APIs.",
            "Add @see with related functions, types, or external references.".to_owned(),
        );
    }
    assert(diags_view(out@) =~= start + fn_doc_findings(
        ctx,
        d as int,
        fd as int,
        name@,
        node_span_of(ctx.path@, ctx.tree@[nm as int], ctx.ls()),
        s as int,
        e as int,
    ));
}

fn fn_decl_one(ctx: &FileContext, d: usize, out: &mut Vec<Diagnostic>)
    requires
        ctx.wf(),
        d < ctx.tree@.len(),
    ensures
        diags_view(final(out)@) == diags_view(old(out)@) + fn_decl_at(ctx, d as int),
{
    let ghost start = diags_view(out@);
    assert(node_wf(ctx.tree@, d as int));
    let fd = match ctx.tree.first_of_kind(d, "function_declarator".as_bytes()) {
        None => {
            assert(diags_view(out@) =~= start + fn_decl_at(ctx, d as int));
            return;
        },
        Some(x) => x,
    };
    assert(node_wf(ctx.tree@, fd as int));
    let nm = match ctx.tree.first_of_kind(fd, "identifier".as_bytes()) {
        None => {
            assert(diags_view(out@) =~= start + fn_decl_at(ctx, d as int));
            return;
        },
        Some(x) => x,
    };
    let name = name_text(ctx, nm, "function");
    let row = ctx.tree.nodes[d].start_row;
    match doc_before_exec(&ctx.line_bytes, row) {
        None => {
            emit(
                out,
                RuleId::Dox012,
                node_to_span(&ctx.tree, nm, ctx.path.as_str(), &ctx.lines),
                concat3("Function '", name.as_str(), "' has no Doxygen block."),
                "Public declarations in headers should have a Doxygen block immediately above them.",
                "Add a /** @brief ...\n * @param ...\n * @return ... */ block.".to_owned(),
            );
        },
        Some((s, e)) => {
            fn_doc_one(ctx, d, fd, name.as_str(), nm, s, e, out);
        },
    }
}

/// Checks the doc blocks of function declarations.
pub fn check_function_declarations(ctx: &FileContext, out: &mut Vec<Diagnostic>)
    requires
        ctx.wf(),
    ensures
        diags_view(final(out)@) == diags_view(old(out)@) + fn_decl_findings(ctx),
{
    let ghost start = diags_view(out@);
    let ns = ctx.tree.collect_kind(0, "declaration".as_bytes());
    let mut k: usize = 0;
    while k < ns.len()
        invariant
            ctx.wf(),
            ns@ == subtree_of_kind(ctx.tree@, 0, "declaration".spec_bytes()),
            forall|m: int| 0 <= m < ns@.len() ==> 0 <= #[trigger] ns@[m] < ctx.tree@[0].end,
            k <= ns@.len(),
            diags_view(out@) == start + fn_decls_over(ctx, ns@.subrange(0, k as int)),
        decreases ns@.len() - k,
    {
        fn_decl_one(ctx, ns[k], out);
        assert(ns@.subrange(0, k + 1).drop_last() =~= ns@.subrange(0, k as int));
        k = k + 1;
    }
    assert(ns@.subrange(0, ns@.len() as int) =~= ns@);
}

/// A named class whose doc block lacks `@see` is reported as incomplete,
/// the message listing `@see` as missing (after `@details` when that is
/// missing too).
pub proof fn lemma_class_missing_see(ctx: &FileContext, c: int)
    requires
        child_by_field(ctx.tree@, c, "name".spec_bytes()) is Some,
        doc_before(ctx.lb(), ctx.tree@[c].start_row as int) matches Some((s, e)) && !block_has(
            ctx.lb(),
            s,
            e,
            "@see".spec_bytes(),
        ),
    ensures
        ({
            let t = ctx.tree@;
            let nm = child_by_field(t, c, "name".spec_bytes())->0;
            let name = name_or(node_text(ctx.source@, t, nm as int), "class"@);
            let (s, e) = doc_before(ctx.lb(), t[c].start_row as int)->0;
            let missing = if block_has(ctx.lb(), s, e, "@details".spec_bytes()) {
                "@see"@
            } else {
                "@details, @see"@
            };
            &&& class_at(ctx, c).len() == 1
            &&& class_at(ctx, c)[0].rule == rule_view(RuleId::Dox007)
            &&& class_at(ctx, c)[0].message == "Class '"@ + name + "' doc is incomplete: missing "@ + missing
                + "."@
        }),
{
    reveal_strlit("@see");
    reveal_strlit("@details");
    reveal_strlit(", ");
    reveal_strlit("@details, @see");
    let (s, e) = doc_before(ctx.lb(), ctx.tree@[c].start_row as int)->0;
    let m = missing_class_tags(ctx.lb(), s, e);
    if block_has(ctx.lb(), s, e, "@details".spec_bytes()) {
        assert(m =~= seq!["@see"@]);
        assert(join(m, ", "@) == "@see"@);
    } else {
        assert(m =~= seq!["@details"@, "@see"@]);
        assert(m.drop_last() =~= seq!["@details"@]);
        assert(join(m.drop_last(), ", "@) == "@details"@);
        assert(join(m, ", "@) =~= "@details, @see"@);
    }
}

/// Every finding on a class among `ns` is among the class findings on `ns`.
pub proof fn lemma_classes_over_has(ctx: &FileContext, ns: Seq<usize>, j: int, k: int)
    requires
        0 <= j < ns.len(),
        0 <= k < class_at(ctx, ns[j] as int).len(),
    ensures
        exists|m: int|
            0 <= m < classes_over(ctx, ns).len() && classes_over(ctx, ns)[m] == class_at(ctx, ns[j] as int)[k],
    decreases ns.len(),
{
    let init = ns.drop_last();
    if j < ns.len() - 1 {
        assert(init[j] == ns[j]);
        lemma_classes_over_has(ctx, init, j, k);
        let m = choose|m: int|
            0 <= m < classes_over(ctx, init).len() && classes_over(ctx, init)[m] == class_at(ctx, init[j] as int)[k];
        assert(classes_over(ctx, ns)[m] == classes_over(ctx, init)[m]);
    } else {
        let m = classes_over(ctx, init).len() + k;
        assert(classes_over(ctx, ns)[m] == class_at(ctx, ns[j] as int)[k]);
    }
}

/// Every class specifier of the file that is named and whose doc block
/// lacks `@see` has an incomplete-doc finding among the class findings.
pub proof fn lemma_class_findings_report_missing_see(ctx: &FileContext, j: int)
    requires
        0 <= j < subtree_of_kind(ctx.tree@, 0, "class_specifier".spec_bytes()).len(),
        ({
            let c = subtree_of_kind(ctx.tree@, 0, "class_specifier".spec_bytes())[j] as int;
            &&& child_by_field(ctx.tree@, c, "name".spec_bytes()) is Some
            &&& doc_before(ctx.lb(), ctx.tree@[c].start_row as int) matches Some((s, e)) && !block_has(
                ctx.lb(),
                s,
                e,
                "@see".spec_bytes(),
            )
        }),
    ensures
        exists|m: int|
            0 <= m < class_findings(ctx).len() && class_findings(ctx)[m].rule == rule_view(RuleId::Dox007)
                && class_findings(ctx)[m] == class_at(
                ctx,
                subtree_of_kind(ctx.tree@, 0, "class_specifier".spec_bytes())[j] as int,
            )[0],
{
    let ns = subtree_of_kind(ctx.tree@, 0, "class_specifier".spec_bytes());
    let c = ns[j] as int;
    lemma_class_missing_see(ctx, c);
    lemma_classes_over_has(ctx, ns, j, 0);
    let f = class_at(ctx, c)[0];
    assert(f.rule == rule_view(RuleId::Dox007));
    assert(class_findings(ctx) == classes_over(ctx, ns));
    let m = choose|m: int| 0 <= m < classes_over(ctx, ns).len() && classes_over(ctx, ns)[m] == f;
    assert(0 <= m < class_findings(ctx).len() && class_findings(ctx)[m].rule == rule_view(RuleId::Dox007)
        && class_findings(ctx)[m] == f);
}

} // verus!
