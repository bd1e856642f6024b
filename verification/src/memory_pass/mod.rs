//! Memory-safety checks.

pub mod checks;
pub mod lines;

use vstd::prelude::*;
use vstd::string::StringSliceAdditionalSpecFns;

use crate::context::FileContext;
use crate::pass::{c_cpp, c_cpp_languages, Pass};
use crate::syntax::subtree_of_kind;
use crate::types::{diags_view, Diagnostic, DiagnosticView, FileRole, SourceLanguage};
use checks::{
    bounds_over, check_array_bounds, check_pointer_null_guard, check_size_narrowing,
    check_size_overflow, mem_functions, narrow_fns, null_guard_over, overflow_over,
};

verus! {

/// Pass 5: memory-safety checks.
#[derive(Debug, Default, Clone, Copy)]
pub struct MemoryPass;

/// Everything the memory pass reports on a file, in order.
#[verifier::opaque]
pub open spec fn memory_findings(ctx: &FileContext) -> Seq<DiagnosticView> {
    let role = ctx.role;
    if role == FileRole::ThirdParty || role == FileRole::Asm || role == FileRole::Cmake || role
        == FileRole::Config {
        Seq::empty()
    } else {
        bounds_over(ctx, subtree_of_kind(ctx.tree@, 0, "subscript_expression".spec_bytes()))
            + null_guard_over(ctx, mem_functions(ctx)) + overflow_over(
            ctx.lb(),
            ctx.lb().len() as int,
            ctx.path@,
            ctx.ls(),
        ) + narrow_fns(ctx, mem_functions(ctx))
    }
}

impl Pass for MemoryPass {
    fn name(&self) -> (r: &'static str)
        ensures
            r@ == "memory"@,
    {
        "memory"
    }

    fn languages(&self) -> (r: Option<Vec<SourceLanguage>>)
        ensures
            r matches Some(v) && v@ == c_cpp(),
    {
        Some(c_cpp_languages())
    }

    fn run(&self, ctx: &FileContext) -> (r: Vec<Diagnostic>)
        ensures
            diags_view(r@) == memory_findings(ctx),
    {
        proof {
            reveal(memory_findings);
        }
        let mut out: Vec<Diagnostic> = Vec::new();
        let role = ctx.role;
        if role == FileRole::ThirdParty || role == FileRole::Asm || role == FileRole::Cmake || role
            == FileRole::Config {
            assert(diags_view(out@) =~= memory_findings(ctx));
            return out;
        }
        assert(diags_view(out@) =~= Seq::<DiagnosticView>::empty());
        check_array_bounds(ctx, &mut out);
        check_pointer_null_guard(ctx, &mut out);
        check_size_overflow(ctx, &mut out);
        check_size_narrowing(ctx, &mut out);
        assert(diags_view(out@) =~= memory_findings(ctx));
        out
    }
}

} // verus!
