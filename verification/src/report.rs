//! Terminal rendering of diagnostics and rule details.

use vstd::prelude::*;

use crate::rules::{all_ids, all_rule_ids, rule, rule_view, RuleId};
use crate::strs::{decimal, push_decimal};
use crate::types::{
    Diagnostic, DiagnosticView, Rule, RuleOverrideSeverity, RuleReference, RuleReferenceView,
    RuleView, SourceLanguage,
};

verus! {

/// `n` spaces.
pub open spec fn spaces(n: nat) -> Seq<char> {
    Seq::new(n, |i: int| ' ')
}

/// `n` carets.
pub open spec fn carets(n: nat) -> Seq<char> {
    Seq::new(n, |i: int| '^')
}

/// `s` right-aligned in a field of `w` characters (`{:>w$}`).
pub open spec fn pad_left(s: Seq<char>, w: nat) -> Seq<char> {
    if s.len() < w {
        spaces((w - s.len()) as nat) + s
    } else {
        s
    }
}

/// The caret line under a span: padding to the start column, then one caret
/// per covered column on a one-line span and a single caret otherwise.
pub open spec fn caret_text(start_col: usize, end_col: usize, same_line: bool) -> Seq<char> {
    let pad: nat = if start_col >= 1 {
        (start_col - 1) as nat
    } else {
        0
    };
    let width: nat = if same_line && end_col > start_col {
        (end_col - start_col) as nat
    } else {
        1
    };
    spaces(pad) + carets(width)
}

fn push_repeat(out: &mut String, c: &str, n: usize)
    requires
        c@.len() == 1,
    ensures
        final(out)@ == old(out)@ + Seq::new(n as nat, |i: int| c@[0]),
{
    let ghost start = out@;
    let mut k: usize = 0;
    while k < n
        invariant
            c@.len() == 1,
            k <= n,
            out@ == start + Seq::new(k as nat, |i: int| c@[0]),
        decreases n - k,
    {
        out.append(c);
        k = k + 1;
        assert(out@ =~= start + Seq::new(k as nat, |i: int| c@[0]));
    }
}

/// The caret marker under a span (`caret_marker`).
pub fn caret_marker(start_col: usize, end_col: usize, same_line: bool) -> (r: String)
    ensures
        r@ == caret_text(start_col, end_col, same_line),
{
    proof {
        reveal_strlit(" ");
        reveal_strlit("^");
    }
    let pad = if start_col >= 1 {
        start_col - 1
    } else {
        0
    };
    let width = if same_line && end_col > start_col {
        end_col - start_col
    } else {
        1
    };
    let mut out = String::new();
    push_repeat(&mut out, " ", pad);
    push_repeat(&mut out, "^", width);
    assert(out@ =~= caret_text(start_col, end_col, same_line));
    out
}

/// The note and help lines of a diagnostic.
pub open spec fn notes_text(notes: Seq<Seq<char>>) -> Seq<char>
    decreases notes.len(),
{
    if notes.len() == 0 {
        Seq::empty()
    } else {
        notes_text(notes.drop_last()) + "  = note: "@ + notes.last() + "\n"@
    }
}

/// A diagnostic as a rustc-style block: heading, location, snippet with a
/// caret line, then notes and help.
pub open spec fn diagnostic_text(d: DiagnosticView) -> Seq<char> {
    let sp = d.span;
    let top = if sp.end_line > sp.start_line {
        sp.end_line
    } else {
        sp.start_line
    };
    let w = decimal(top as nat).len();
    d.rule.severity.label() + "["@ + d.rule.id + "]: "@ + d.message + "\n"@ + "  --> "@ + sp.file + ":"@
        + decimal(sp.start_line as nat) + ":"@ + decimal(sp.start_col as nat) + "\n"@ + spaces(w)
        + " |\n"@ + pad_left(decimal(sp.start_line as nat), w) + " | "@ + sp.snippet + "\n"@ + spaces(w)
        + " | "@ + caret_text(sp.start_col, sp.end_col, sp.start_line == sp.end_line) + " "@
        + d.rule.title + "\n"@ + notes_text(d.notes) + match d.help {
        Some(h) => "  = help: "@ + h + "\n"@,
        None => Seq::empty(),
    }
}

fn decimal_len(n: usize) -> (r: usize)
    ensures
        r as nat == decimal(n as nat).len(),
        1 <= r <= n + 1,
    decreases n,
{
    if n < 10 {
        1
    } else {
        let k = decimal_len(n / 10);
        k + 1
    }
}

fn digits_of(n: usize) -> (r: String)
    ensures
        r@ == decimal(n as nat),
{
    let mut s = String::new();
    push_decimal(&mut s, n);
    assert(s@ =~= decimal(n as nat));
    s
}

/// Renders one diagnostic as a multi-line terminal block (`render_diagnostic`).
pub fn render_diagnostic(d: &Diagnostic) -> (r: String)
    ensures
        r@ == diagnostic_text(d@),
{
    proof {
        reveal_strlit(" ");
    }
    let sp = &d.span;
    let top = if sp.end_line > sp.start_line {
        sp.end_line
    } else {
        sp.start_line
    };
    let w = decimal_len(top);
    let line_no = digits_of(sp.start_line);
    let ln = decimal_len(sp.start_line);
    let mut out = String::new();
    out.append(d.rule.severity.as_str());
    out.append("[");
    out.append(d.rule.id.as_str());
    out.append("]: ");
    out.append(d.message.as_str());
    out.append("\n");
    out.append("  --> ");
    out.append(sp.file.as_str());
    out.append(":");
    push_decimal(&mut out, sp.start_line);
    out.append(":");
    push_decimal(&mut out, sp.start_col);
    out.append("\n");
    push_repeat(&mut out, " ", w);
    out.append(" |\n");
    if ln < w {
        push_repeat(&mut out, " ", w - ln);
    }
    out.append(line_no.as_str());
    out.append(" | ");
    out.append(sp.snippet.as_str());
    out.append("\n");
    push_repeat(&mut out, " ", w);
    out.append(" | ");
    let caret = caret_marker(sp.start_col, sp.end_col, sp.start_line == sp.end_line);
    out.append(caret.as_str());
    out.append(" ");
    out.append(d.rule.title.as_str());
    out.append("\n");
    let ghost head = out@;
    let mut k: usize = 0;
    while k < d.notes.len()
        invariant
            k <= d.notes@.len(),
            out@ == head + notes_text(crate::types::strings_view(d.notes@).subrange(0, k as int)),
        decreases d.notes@.len() - k,
    {
        let ghost sub = crate::types::strings_view(d.notes@).subrange(0, k + 1);
        assert(sub.drop_last() =~= crate::types::strings_view(d.notes@).subrange(0, k as int));
        out.append("  = note: ");
        out.append(d.notes[k].as_str());
        out.append("\n");
        k = k + 1;
        assert(out@ =~= head + notes_text(crate::types::strings_view(d.notes@).subrange(0, k as int)));
    }
    assert(crate::types::strings_view(d.notes@).subrange(0, d.notes@.len() as int) =~= crate::types::strings_view(d.notes@));
    let ghost with_notes = out@;
    match &d.help {
        Some(h) => {
            out.append("  = help: ");
            out.append(h.as_str());
            out.append("\n");
        },
        None => {},
    }
    assert(out@ =~= diagnostic_text(d@));
    out
}

/// Display names of a rule's languages, or `all`.
pub open spec fn languages_text(langs: Option<Seq<SourceLanguage>>) -> Seq<char> {
    match langs {
        None => "all"@,
        Some(ls) => crate::strs::join(Seq::new(ls.len(), |i: int| language_name(ls[i])), ", "@),
    }
}

/// Lower-case language name.
pub open spec fn language_name(l: SourceLanguage) -> Seq<char> {
    match l {
        SourceLanguage::C => "c"@,
        SourceLanguage::Cpp => "cpp"@,
        SourceLanguage::Rust => "rust"@,
        SourceLanguage::TypeScript => "typescript"@,
    }
}

fn language_name_exec(l: SourceLanguage) -> (r: &'static str)
    ensures
        r@ == language_name(l),
{
    match l {
        SourceLanguage::C => "c",
        SourceLanguage::Cpp => "cpp",
        SourceLanguage::Rust => "rust",
        SourceLanguage::TypeScript => "typescript",
    }
}

/// Display of a rule's language scope (`format_languages`).
pub fn format_languages(rule: &Rule) -> (r: String)
    ensures
        r@ == languages_text(rule@.languages),
{
    match &rule.languages {
        None => "all".to_owned(),
        Some(ls) => {
            let mut names: Vec<String> = Vec::new();
            let mut k: usize = 0;
            while k < ls.len()
                invariant
                    k <= ls@.len(),
                    crate::types::strings_view(names@) =~= Seq::new(
                        k as nat,
                        |i: int| language_name(ls@[i]),
                    ),
                decreases ls@.len() - k,
            {
                let n = language_name_exec(ls[k]).to_owned();
                let ghost before = crate::types::strings_view(names@);
                names.push(n);
                assert(crate::types::strings_view(names@) =~= before.push(n@));
                k = k + 1;
            }
            crate::strs::join_strings(&names, ", ")
        },
    }
}

/// One reference: label, then file, section and url when present, joined by ` | `.
pub open spec fn reference_text(r: RuleReferenceView) -> Seq<char> {
    r.label + match r.file {
        Some(f) => " | file: "@ + f,
        None => Seq::empty(),
    } + match r.section {
        Some(s) => " | section: "@ + s,
        None => Seq::empty(),
    } + match r.url {
        Some(u) => " | url: "@ + u,
        None => Seq::empty(),
    }
}

/// Display of one rule reference (`format_reference`).
pub fn format_reference(reference: &RuleReference) -> (r: String)
    ensures
        r@ == reference_text(reference@),
{
    let mut out = reference.label.clone();
    let ghost a = out@;
    match &reference.file {
        Some(f) => {
            out.append(" | file: ");
            out.append(f.as_str());
        },
        None => {},
    }
    match &reference.section {
        Some(s) => {
            out.append(" | section: ");
            out.append(s.as_str());
        },
        None => {},
    }
    match &reference.url {
        Some(u) => {
            out.append(" | url: ");
            out.append(u.as_str());
        },
        None => {},
    }
    assert(out@ =~= reference_text(reference@));
    out
}

/// References, one `- ` line each.
pub open spec fn references_text(refs: Seq<RuleReferenceView>) -> Seq<char>
    decreases refs.len(),
{
    if refs.len() == 0 {
        Seq::empty()
    } else {
        references_text(refs.drop_last()) + "- "@ + reference_text(refs.last()) + "\n"@
    }
}

/// The full description of a rule (`render_rule_detail`).
pub open spec fn rule_detail_text(r: RuleView) -> Seq<char> {
    r.id + "\n"@ + "category: "@ + r.category.label() + "\n"@ + "severity: "@ + r.severity.label()
        + "\n"@ + "languages: "@ + languages_text(r.languages) + "\n"@ + "config: rules.overrides."@
        + r.id + ".severity = \""@ + RuleOverrideSeverity::Error.label() + "|"@
        + RuleOverrideSeverity::Warning.label() + "|"@ + RuleOverrideSeverity::Info.label() + "|"@
        + RuleOverrideSeverity::Ignore.label() + "\"\n"@ + "\n"@ + "title:\n"@ + r.title + "\n"@
        + "\n"@ + "description:\n"@ + r.description + "\n"@ + "\n"@ + "rationale:\n"@ + r.rationale
        + "\n"@ + "\n"@ + "references:\n"@ + references_text(r.references)
}

/// Renders the full description of a rule.
pub fn render_rule_detail(rule: &Rule) -> (r: String)
    ensures
        r@ == rule_detail_text(rule@),
{
    let mut out = rule.id.clone();
    out.append("\n");
    out.append("category: ");
    out.append(rule.category.as_str());
    out.append("\n");
    out.append("severity: ");
    out.append(rule.severity.as_str());
    out.append("\n");
    out.append("languages: ");
    let langs = format_languages(rule);
    out.append(langs.as_str());
    out.append("\n");
    out.append("config: rules.overrides.");
    out.append(rule.id.as_str());
    out.append(".severity = \"");
    out.append(RuleOverrideSeverity::Error.as_str());
    out.append("|");
    out.append(RuleOverrideSeverity::Warning.as_str());
    out.append("|");
    out.append(RuleOverrideSeverity::Info.as_str());
    out.append("|");
    out.append(RuleOverrideSeverity::Ignore.as_str());
    out.append("\"\n");
    out.append("\n");
    out.append("title:\n");
    out.append(rule.title.as_str());
    out.append("\n");
    out.append("\n");
    out.append("description:\n");
    out.append(rule.description.as_str());
    out.append("\n");
    out.append("\n");
    out.append("rationale:\n");
    out.append(rule.rationale.as_str());
    out.append("\n");
    out.append("\n");
    out.append("references:\n");
    let ghost head = out@;
    let ghost refs = rule@.references;
    let mut k: usize = 0;
    while k < rule.references.len()
        invariant
            k <= rule.references@.len(),
            refs == rule@.references,
            out@ == head + references_text(refs.subrange(0, k as int)),
        decreases rule.references@.len() - k,
    {
        let ghost sub = refs.subrange(0, k + 1);
        assert(sub.drop_last() =~= refs.subrange(0, k as int));
        out.append("- ");
        let r = format_reference(&rule.references[k]);
        out.append(r.as_str());
        out.append("\n");
        k = k + 1;
        assert(out@ =~= head + references_text(refs.subrange(0, k as int)));
    }
    assert(refs.subrange(0, rule.references@.len() as int) =~= refs);
    assert(out@ =~= rule_detail_text(rule@));
    out
}

/// One line of the rule listing: identifier, severity, category and title.
pub open spec fn rule_line(r: RuleView) -> Seq<char> {
    r.id + "  "@ + r.severity.label() + "  "@ + r.category.label() + "  "@ + r.title + "\n"@
}

/// The listing lines of the rules `ids`, in order.
pub open spec fn rule_lines(ids: Seq<RuleId>) -> Seq<char>
    decreases ids.len(),
{
    if ids.len() == 0 {
        Seq::empty()
    } else {
        rule_lines(ids.drop_last()) + rule_line(rule_view(ids.last()))
    }
}

fn push_rule_line(out: &mut String, r: &Rule)
    ensures
        final(out)@ == old(out)@ + rule_line(r@),
{
    out.append(r.id.as_str());
    out.append("  ");
    out.append(r.severity.as_str());
    out.append("  ");
    out.append(r.category.as_str());
    out.append("  ");
    out.append(r.title.as_str());
    out.append("\n");
    assert(out@ =~= old(out)@ + rule_line(r@));
}

/// Lists every rule of the catalog, one line each, in catalog order.
pub fn render_rule_list() -> (r: String)
    ensures
        r@ == rule_lines(all_ids()),
{
    let ids = all_rule_ids();
    let mut out = String::new();
    let mut i: usize = 0;
    assert(ids@.subrange(0, 0) =~= Seq::<RuleId>::empty());
    while i < ids.len()
        invariant
            ids@ == all_ids(),
            i <= ids@.len(),
            out@ == rule_lines(ids@.subrange(0, i as int)),
        decreases ids@.len() - i,
    {
        let r = rule(ids[i]);
        push_rule_line(&mut out, &r);
        proof {
            assert(ids@.subrange(0, i + 1).drop_last() =~= ids@.subrange(0, i as int));
        }
        i = i + 1;
    }
    assert(ids@.subrange(0, ids@.len() as int) =~= ids@);
    out
}

} // verus!
