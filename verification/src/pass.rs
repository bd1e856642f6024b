//! The interface shared by every analysis pass.

use vstd::prelude::*;

use crate::context::FileContext;
use crate::types::{Diagnostic, SourceLanguage};

verus! {

/// A single analysis pass over one parsed source file.
pub trait Pass {
    /// Stable name used in logs and test output.
    fn name(&self) -> &'static str;

    /// Language filter for the pass; `None` means all languages.
    fn languages(&self) -> Option<Vec<SourceLanguage>>;

    /// Runs the pass against one file context and returns its findings.
    fn run(&self, ctx: &FileContext) -> Vec<Diagnostic>
        requires
            ctx.wf(),
    ;
}

/// The C and C++ language pair most passes apply to.
pub open spec fn c_cpp() -> Seq<SourceLanguage> {
    seq![SourceLanguage::C, SourceLanguage::Cpp]
}

/// A fresh `[C, Cpp]` language list.
pub fn c_cpp_languages() -> (r: Vec<SourceLanguage>)
    ensures
        r@ == c_cpp(),
{
    let mut v: Vec<SourceLanguage> = Vec::new();
    v.push(SourceLanguage::C);
    v.push(SourceLanguage::Cpp);
    assert(v@ =~= c_cpp());
    v
}

} // verus!
