//! Lexical checks on raw text and source lines: SPDX tags, header ordering
//! and writing style in doc comments.

pub mod license;
pub mod style;

use vstd::prelude::*;
use vstd::string::StringSliceAdditionalSpecFns;

use crate::context::FileContext;
use crate::pass::{c_cpp, c_cpp_languages, Pass};
use crate::text::{contains, seq_contains};
use crate::types::{diags_view, Diagnostic, DiagnosticView, FileRole, SourceLanguage};
use license::{check_header_ordering, check_spdx, ordering_findings, spdx_findings};
use style::{banned_findings, check_banned_words, check_em_dash, em_dash_findings};

verus! {

/// A doc comment is open after the lines `0..i` have been read: a line with
/// `/**` opens one, and a later `*/` on an open comment's line closes it.
pub open spec fn doc_open_before(lb: Seq<Seq<u8>>, i: int) -> bool
    decreases i,
{
    if i <= 0 {
        false
    } else {
        let s = doc_open_before(lb, i - 1) || seq_contains(lb[i - 1], "/**".spec_bytes());
        s && !seq_contains(lb[i - 1], "*/".spec_bytes())
    }
}

/// Line `i` lies in a doc comment (`is_in_doc_comment`).
pub open spec fn in_doc_comment(lb: Seq<Seq<u8>>, i: int) -> bool {
    0 <= i < lb.len() && (doc_open_before(lb, i) || seq_contains(lb[i], "/**".spec_bytes()))
}

/// Reads one line: whether it lies in a doc comment, and whether one is open after it.
pub fn doc_open_step(open: bool, l: &[u8]) -> (r: (bool, bool))
    ensures
        r.0 == (open || seq_contains(l@, "/**".spec_bytes())),
        r.1 == (r.0 && !seq_contains(l@, "*/".spec_bytes())),
{
    let in_doc = open || contains(l, "/**".as_bytes());
    (in_doc, in_doc && !contains(l, "*/".as_bytes()))
}

/// Pass 1: lexical checks on raw text and source lines.
#[derive(Debug, Default, Clone, Copy)]
pub struct LexPass;

/// Everything the lexical pass reports on a file, in order.
#[verifier::opaque]
pub open spec fn lex_findings(ctx: &FileContext) -> Seq<DiagnosticView> {
    if ctx.role == FileRole::ThirdParty || ctx.role == FileRole::Asm {
        Seq::empty()
    } else {
        spdx_findings(ctx.source@, ctx.lb(), ctx.path@, ctx.ls()) + ordering_findings(
            ctx.lb(),
            ctx.path@,
            ctx.ls(),
        ) + banned_findings(ctx.lb(), ctx.lb().len() as int, ctx.path@, ctx.ls())
            + em_dash_findings(ctx.lb(), ctx.lb().len() as int, ctx.path@, ctx.ls())
    }
}

impl Pass for LexPass {
    fn name(&self) -> (r: &'static str)
        ensures
            r@ == "lex"@,
    {
        "lex"
    }

    fn languages(&self) -> (r: Option<Vec<SourceLanguage>>)
        ensures
            r matches Some(v) && v@ == c_cpp(),
    {
        Some(c_cpp_languages())
    }

    fn run(&self, ctx: &FileContext) -> (r: Vec<Diagnostic>)
        ensures
            diags_view(r@) == lex_findings(ctx),
    {
        proof {
            reveal(lex_findings);
        }
        let mut out: Vec<Diagnostic> = Vec::new();
        if ctx.role == FileRole::ThirdParty || ctx.role == FileRole::Asm {
            assert(diags_view(out@) =~= lex_findings(ctx));
            return out;
        }
        assert(diags_view(out@) =~= Seq::<DiagnosticView>::empty());
        check_spdx(ctx, &mut out);
        check_header_ordering(ctx, &mut out);
        check_banned_words(ctx, &mut out);
        check_em_dash(ctx, &mut out);
        assert(diags_view(out@) =~= lex_findings(ctx));
        out
    }
}

} // verus!
