//! End-of-run summary rendering.

use vstd::prelude::*;

use crate::strs::{decimal, push_decimal};

verus! {

/// Counts collected across one audit run.
#[derive(Debug, Clone, Copy, PartialEq, Eq, Structural)]
pub struct AuditSummaryView {
    /// Files parsed and analysed.
    pub scanned_files: usize,
    /// Files skipped because they could not be analysed.
    pub skipped_files: usize,
    /// Error diagnostics emitted.
    pub errors: usize,
    /// Warning diagnostics emitted.
    pub warnings: usize,
    /// Informational diagnostics emitted.
    pub infos: usize,
}

/// The summary block: a blank line, a heading and one line per count.
pub open spec fn summary_text(s: AuditSummaryView) -> Seq<char> {
    "\n"@ + "summary\n"@ + "  scanned files: "@ + decimal(s.scanned_files as nat) + "\n"@
        + "  skipped files: "@ + decimal(s.skipped_files as nat) + "\n"@ + "  errors: "@
        + decimal(s.errors as nat) + "\n"@ + "  warnings: "@ + decimal(s.warnings as nat) + "\n"@
        + "  infos: "@ + decimal(s.infos as nat) + "\n"@
}

/// Renders the end-of-run summary block.
pub fn render_summary(summary: AuditSummaryView) -> (r: String)
    ensures
        r@ == summary_text(summary),
{
    let mut out = String::new();
    out.append("\n");
    out.append("summary\n");
    out.append("  scanned files: ");
    push_decimal(&mut out, summary.scanned_files);
    out.append("\n");
    out.append("  skipped files: ");
    push_decimal(&mut out, summary.skipped_files);
    out.append("\n");
    out.append("  errors: ");
    push_decimal(&mut out, summary.errors);
    out.append("\n");
    out.append("  warnings: ");
    push_decimal(&mut out, summary.warnings);
    out.append("\n");
    out.append("  infos: ");
    push_decimal(&mut out, summary.infos);
    out.append("\n");
    assert(out@ =~= summary_text(summary));
    out
}

} // verus!
