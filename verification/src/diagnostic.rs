//! Building spans and diagnostics from parser ranges and source lines.

use vstd::prelude::*;

use crate::rules::{rule, rule_view, RuleId};
use crate::strs::{join, join_strings, utf8_str};
use crate::syntax::{node_wf, NodeView, SyntaxTree};
use crate::types::{
    strings_view, Diagnostic, DiagnosticView, RelatedSpan, RelatedSpanView, Rule, Span, SpanView,
    opt_view,
};

verus! {

/// `n + 1`, held at `usize::MAX` at the top of the range.
pub open spec fn succ(n: usize) -> usize {
    if n < usize::MAX {
        (n + 1) as usize
    } else {
        n
    }
}

pub fn succ_exec(n: usize) -> (r: usize)
    ensures
        r == succ(n),
{
    if n < usize::MAX {
        n + 1
    } else {
        n
    }
}

/// Input bag for [`build_diagnostic`].
#[derive(Debug)]
pub struct DiagnosticInit {
    /// Primary location.
    pub span: Span,
    /// Specific message.
    pub message: String,
    /// Note lines.
    pub notes: Vec<String>,
    /// Suggested fix.
    pub help: Option<String>,
    /// Secondary locations.
    pub related_spans: Vec<RelatedSpan>,
}

/// A diagnostic assembled from a rule and an init bag.
pub open spec fn diagnostic_of(rule: Rule, init: DiagnosticInit) -> DiagnosticView {
    DiagnosticView {
        rule: rule@,
        span: init.span@,
        message: init.message@,
        notes: strings_view(init.notes@),
        help: opt_view(init.help),
        related_spans: Seq::new(
            init.related_spans@.len(),
            |i: int| init.related_spans@[i]@,
        ),
    }
}

/// Constructs a diagnostic from a rule and an init bag.
pub fn build_diagnostic(rule: Rule, init: DiagnosticInit) -> (r: Diagnostic)
    ensures
        r@ == diagnostic_of(rule, init),
{
    Diagnostic {
        rule,
        span: init.span,
        message: init.message,
        notes: init.notes,
        help: init.help,
        related_spans: init.related_spans,
    }
}

/// A finding of rule `id` with one note and a help line, and no related spans.
pub open spec fn finding(
    id: RuleId,
    span: SpanView,
    message: Seq<char>,
    note: Seq<char>,
    help: Seq<char>,
) -> DiagnosticView {
    DiagnosticView {
        rule: rule_view(id),
        span,
        message,
        notes: seq![note],
        help: Some(help),
        related_spans: Seq::empty(),
    }
}

/// Appends a finding of rule `id` with one note and a help line.
pub fn emit(out: &mut Vec<Diagnostic>, id: RuleId, span: Span, message: String, note: &str, help: String)
    ensures
        crate::types::diags_view(final(out)@) == crate::types::diags_view(old(out)@).push(
            finding(id, span@, message@, note@, help@),
        ),
{
    let mut notes: Vec<String> = Vec::new();
    notes.push(note.to_owned());
    let d = build_diagnostic(
        rule(id),
        DiagnosticInit { span, message, notes, help: Some(help), related_spans: Vec::new() },
    );
    let ghost before = crate::types::diags_view(out@);
    out.push(d);
    assert(d@.notes =~= seq![note@]);
    assert(d@.related_spans =~= Seq::<RelatedSpanView>::empty());
    assert(crate::types::diags_view(out@) =~= before.push(d@));
}

/// Text of UTF-8 bytes; empty when they are not valid UTF-8.
pub open spec fn chars_of(b: Seq<u8>) -> Seq<char> {
    if vstd::utf8::valid_utf8(b) {
        vstd::utf8::decode_utf8(b)
    } else {
        Seq::empty()
    }
}

/// Text of UTF-8 bytes as an owned string.
pub fn text_of(b: &[u8]) -> (r: String)
    ensures
        r@ == chars_of(b@),
{
    if crate::parser::utf8_valid(b) {
        utf8_str(b).to_owned()
    } else {
        String::new()
    }
}

/// `a`, `b` and `c` one after another.
pub fn concat3(a: &str, b: &str, c: &str) -> (r: String)
    ensures
        r@ == a@ + b@ + c@,
{
    let mut s = a.to_owned();
    s.append(b);
    s.append(c);
    s
}

/// Byte length of a line, as `str::len` gives it.
pub open spec fn byte_len(s: Seq<char>) -> int {
    vstd::utf8::encode_utf8(s).len() as int
}

/// The span of line `line_number` (1-based) of `lines`.
pub open spec fn line_span_of(file: Seq<char>, line_number: usize, lines: Seq<Seq<char>>) -> SpanView {
    let text = if 1 <= line_number <= lines.len() {
        lines[line_number - 1]
    } else {
        Seq::empty()
    };
    SpanView {
        file,
        start_line: line_number,
        start_col: 1,
        end_line: line_number,
        end_col: succ(byte_len(text) as usize),
        snippet: text,
    }
}

/// Builds a span that covers one whole source line; a line past the end
/// gives an empty snippet.
pub fn line_span(file_path: &str, line_number: usize, lines: &Vec<String>) -> (r: Span)
    ensures
        r@ == line_span_of(file_path@, line_number, strings_view(lines@)),
{
    let text = if line_number >= 1 && line_number <= lines.len() {
        lines[line_number - 1].clone()
    } else {
        String::new()
    };
    let len = text.as_str().len();
    Span {
        file: file_path.to_owned(),
        start_line: line_number,
        start_col: 1,
        end_line: line_number,
        end_col: succ_exec(len),
        snippet: text,
    }
}

/// First and past-the-end line indices of the snippet of a node: at most
/// three lines from its first row, within the file.
pub open spec fn snippet_bounds(n: NodeView, len: int) -> (int, int) {
    let a = if n.start_row < len {
        n.start_row as int
    } else {
        len
    };
    let rows = n.end_row - n.start_row + 1;
    let take = if rows < 3 {
        rows
    } else {
        3
    };
    let b = if a + take < len {
        a + take
    } else {
        len
    };
    (a, b)
}

/// The span of node `i`: 1-based positions and up to three source lines.
pub open spec fn node_span_of(file: Seq<char>, n: NodeView, lines: Seq<Seq<char>>) -> SpanView {
    let (a, b) = snippet_bounds(n, lines.len() as int);
    SpanView {
        file,
        start_line: succ(n.start_row),
        start_col: succ(n.start_col),
        end_line: succ(n.end_row),
        end_col: succ(n.end_col),
        snippet: join(lines.subrange(a, b), "\n"@),
    }
}

fn copy_lines(lines: &Vec<String>, a: usize, b: usize) -> (r: Vec<String>)
    requires
        a <= b <= lines@.len(),
    ensures
        strings_view(r@) == strings_view(lines@).subrange(a as int, b as int),
{
    let mut out: Vec<String> = Vec::new();
    let mut i = a;
    while i < b
        invariant
            a <= i <= b <= lines@.len(),
            strings_view(out@) =~= strings_view(lines@).subrange(a as int, i as int),
        decreases b - i,
    {
        let ghost prev = strings_view(out@);
        let line = lines[i].clone();
        assert(line@ == lines@[i as int]@);
        out.push(line);
        assert(strings_view(out@) =~= prev.push(lines@[i as int]@));
        i = i + 1;
    }
    out
}

/// Converts node `i` into a span (`node_to_span`).
pub fn node_to_span(tree: &SyntaxTree, i: usize, file_path: &str, lines: &Vec<String>) -> (r: Span)
    requires
        tree.wf(),
        i < tree@.len(),
    ensures
        r@ == node_span_of(file_path@, tree@[i as int], strings_view(lines@)),
{
    assert(node_wf(tree@, i as int));
    let n = &tree.nodes[i];
    let len = lines.len();
    let a = if n.start_row < len {
        n.start_row
    } else {
        len
    };
    let diff = n.end_row - n.start_row;
    let take: usize = if diff < 2 {
        diff + 1
    } else {
        3
    };
    let b = if a < len && take < len - a {
        a + take
    } else {
        len
    };
    let picked = copy_lines(lines, a, b);
    let snippet = join_strings(&picked, "\n");
    Span {
        file: file_path.to_owned(),
        start_line: succ_exec(n.start_row),
        start_col: succ_exec(n.start_col),
        end_line: succ_exec(n.end_row),
        end_col: succ_exec(n.end_col),
        snippet,
    }
}

} // verus!
