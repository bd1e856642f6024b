//! Doxygen structure checks over the parsed file context.

pub mod decls;
pub mod docs;
pub mod groups;
pub mod header;

pub use groups::{collect_group_tags, group_tags};

use vstd::prelude::*;

use crate::context::FileContext;
use crate::pass::{c_cpp, c_cpp_languages, Pass};
use crate::text::vv;
use crate::types::{diags_view, Diagnostic, DiagnosticView, FileRole, SourceLanguage};
use decls::{
    check_classes, check_enums, check_function_declarations, check_structs, class_findings,
    enum_findings, fn_decl_findings, struct_findings,
};
use header::{
    check_file_header, check_ingroups, check_module_doc, header_findings, ingroup_findings,
    module_doc_findings,
};

verus! {

/// Pass 2: Doxygen structure checks built on the parsed file context.
#[derive(Debug, Default, Clone, Copy)]
pub struct AstPass;

/// Everything the Doxygen pass reports on a file, in order.
#[verifier::opaque]
pub open spec fn ast_findings(ctx: &FileContext) -> Seq<DiagnosticView> {
    let role = ctx.role;
    if role == FileRole::ThirdParty || role == FileRole::Asm || role == FileRole::Cmake || role
        == FileRole::Config {
        Seq::empty()
    } else {
        let a = header_findings(ctx.lb(), ctx.path@, ctx.ls()) + module_doc_findings(
            role,
            ctx.source@,
            ctx.path@,
            ctx.ls(),
        );
        let b = if role == FileRole::PublicHeader {
            ingroup_findings(
                ctx.tree@,
                ctx.source@,
                vv(ctx.defined_groups@),
                ctx.lb(),
                ctx.path@,
                ctx.ls(),
            )
        } else {
            Seq::empty()
        };
        let c = if role == FileRole::PublicHeader || role == FileRole::ModuleDoc {
            class_findings(ctx) + struct_findings(ctx) + enum_findings(ctx) + fn_decl_findings(ctx)
        } else {
            Seq::empty()
        };
        a + b + c
    }
}

impl Pass for AstPass {
    fn name(&self) -> (r: &'static str)
        ensures
            r@ == "ast"@,
    {
        "ast"
    }

    fn languages(&self) -> (r: Option<Vec<SourceLanguage>>)
        ensures
            r matches Some(v) && v@ == c_cpp(),
    {
        Some(c_cpp_languages())
    }

    fn run(&self, ctx: &FileContext) -> (r: Vec<Diagnostic>)
        ensures
            diags_view(r@) == ast_findings(ctx),
    {
        proof {
            reveal(ast_findings);
        }
        let mut out: Vec<Diagnostic> = Vec::new();
        let role = ctx.role;
        if role == FileRole::ThirdParty || role == FileRole::Asm || role == FileRole::Cmake || role
            == FileRole::Config {
            assert(diags_view(out@) =~= ast_findings(ctx));
            return out;
        }
        assert(diags_view(out@) =~= Seq::<DiagnosticView>::empty());
        check_file_header(ctx, &mut out);
        check_module_doc(ctx, &mut out);
        let ghost a = diags_view(out@);
        if role == FileRole::PublicHeader {
            check_ingroups(ctx, &mut out);
        }
        let ghost b = diags_view(out@);
        if role == FileRole::PublicHeader || role == FileRole::ModuleDoc {
            check_classes(ctx, &mut out);
            check_structs(ctx, &mut out);
            check_enums(ctx, &mut out);
            check_function_declarations(ctx, &mut out);
        }
        assert(diags_view(out@) =~= ast_findings(ctx));
        out
    }
}

} // verus!
