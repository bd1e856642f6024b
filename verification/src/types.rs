//! Shared data model: rules, spans, diagnostics and configuration.

use vstd::prelude::*;

verus! {

/// How serious a finding is.
#[derive(Clone, Copy, Debug, PartialEq, Eq, Structural)]
pub enum Severity {
    /// Fails the audit.
    Error,
    /// Reported but does not fail the audit.
    Warning,
    /// Informational only.
    Info,
}

impl Severity {
    /// Lower-case label used in rendered diagnostics.
    pub fn as_str(self) -> (r: &'static str)
        ensures
            r@ == self.label(),
    {
        match self {
            Severity::Error => "error",
            Severity::Warning => "warning",
            Severity::Info => "info",
        }
    }

    pub open spec fn label(self) -> Seq<char> {
        match self {
            Severity::Error => "error"@,
            Severity::Warning => "warning"@,
            Severity::Info => "info"@,
        }
    }
}

/// Rule family.
#[derive(Clone, Copy, Debug, PartialEq, Eq, Structural)]
pub enum RuleCategory {
    /// SPDX and header ordering.
    License,
    /// Doxygen structure.
    Doxygen,
    /// NASA/JPL safety rules.
    Nasa,
    /// Cryptographic safety.
    Crypto,
    /// Memory safety.
    Memory,
    /// Documentation writing style.
    Style,
}

impl RuleCategory {
    /// Upper-case label used in rule listings.
    pub fn as_str(self) -> (r: &'static str)
        ensures
            r@ == self.label(),
    {
        match self {
            RuleCategory::License => "LICENSE",
            RuleCategory::Doxygen => "DOXYGEN",
            RuleCategory::Nasa => "NASA",
            RuleCategory::Crypto => "CRYPTO",
            RuleCategory::Memory => "MEMORY",
            RuleCategory::Style => "STYLE",
        }
    }

    pub open spec fn label(self) -> Seq<char> {
        match self {
            RuleCategory::License => "LICENSE"@,
            RuleCategory::Doxygen => "DOXYGEN"@,
            RuleCategory::Nasa => "NASA"@,
            RuleCategory::Crypto => "CRYPTO"@,
            RuleCategory::Memory => "MEMORY"@,
            RuleCategory::Style => "STYLE"@,
        }
    }
}

/// Source language detected from a file extension.
#[derive(Clone, Copy, Debug, PartialEq, Eq, Structural)]
pub enum SourceLanguage {
    /// C sources and headers.
    C,
    /// C++ sources and headers.
    Cpp,
    /// Rust sources.
    Rust,
    /// TypeScript sources.
    TypeScript,
}

impl SourceLanguage {
    /// Short label for the language family.
    pub fn family_label(self) -> (r: &'static str)
        ensures
            r@ == self.family(),
    {
        match self {
            SourceLanguage::C | SourceLanguage::Cpp => "c/c++",
            SourceLanguage::Rust => "rust",
            SourceLanguage::TypeScript => "typescript",
        }
    }

    pub open spec fn family(self) -> Seq<char> {
        match self {
            SourceLanguage::C | SourceLanguage::Cpp => "c/c++"@,
            SourceLanguage::Rust => "rust"@,
            SourceLanguage::TypeScript => "typescript"@,
        }
    }
}

/// Structural role of a file in the firmware tree.
#[derive(Clone, Copy, Debug, PartialEq, Eq, Structural)]
pub enum FileRole {
    /// `.h` / `.hpp` public header.
    PublicHeader,
    /// Implementation source.
    Implementation,
    /// `module-doc.h` group declaration file.
    ModuleDoc,
    /// Test source.
    Test,
    /// Vendored third-party code.
    ThirdParty,
    /// Assembly source.
    Asm,
    /// CMake build file.
    Cmake,
    /// Kconfig or Doxyfile.
    Config,
}

/// Target platform hint.
#[derive(Clone, Copy, Debug, PartialEq, Eq, Structural)]
pub enum PlatformHint {
    /// nRF52840 with CC310.
    Nrf52840,
    /// nRF5340 with CC312.
    Nrf5340,
    /// ESP32.
    Esp32,
    /// Several targets.
    Multi,
    /// Host build.
    Host,
    /// Detect from source markers.
    Auto,
}

/// Severity override configured for one rule.
#[derive(Clone, Copy, Debug, PartialEq, Eq, Structural)]
pub enum RuleOverrideSeverity {
    /// Report as error.
    Error,
    /// Report as warning.
    Warning,
    /// Report as info.
    Info,
    /// Suppress the rule.
    Ignore,
}

impl RuleOverrideSeverity {
    /// Lower-case label used in configuration files.
    pub fn as_str(self) -> (r: &'static str)
        ensures
            r@ == self.label(),
    {
        match self {
            RuleOverrideSeverity::Error => "error",
            RuleOverrideSeverity::Warning => "warning",
            RuleOverrideSeverity::Info => "info",
            RuleOverrideSeverity::Ignore => "ignore",
        }
    }

    pub open spec fn label(self) -> Seq<char> {
        match self {
            RuleOverrideSeverity::Error => "error"@,
            RuleOverrideSeverity::Warning => "warning"@,
            RuleOverrideSeverity::Info => "info"@,
            RuleOverrideSeverity::Ignore => "ignore"@,
        }
    }
}

/// External reference attached to a rule.
#[derive(Debug)]
pub struct RuleReference {
    /// Display label.
    pub label: String,
    /// Optional file reference.
    pub file: Option<String>,
    /// Optional section reference.
    pub section: Option<String>,
    /// Optional URL.
    pub url: Option<String>,
}

pub struct RuleReferenceView {
    pub label: Seq<char>,
    pub file: Option<Seq<char>>,
    pub section: Option<Seq<char>>,
    pub url: Option<Seq<char>>,
}

pub open spec fn opt_view(o: Option<String>) -> Option<Seq<char>> {
    match o {
        Some(s) => Some(s@),
        None => None,
    }
}

impl View for RuleReference {
    type V = RuleReferenceView;

    open spec fn view(&self) -> RuleReferenceView {
        RuleReferenceView {
            label: self.label@,
            file: opt_view(self.file),
            section: opt_view(self.section),
            url: opt_view(self.url),
        }
    }
}

/// A rule descriptor from the registry.
#[derive(Debug)]
pub struct Rule {
    /// Stable identifier such as `NRP-NASA-006`.
    pub id: String,
    /// Rule family.
    pub category: RuleCategory,
    /// Default severity.
    pub severity: Severity,
    /// Short kebab-case title.
    pub title: String,
    /// What the rule checks.
    pub description: String,
    /// Why the rule exists.
    pub rationale: String,
    /// External references.
    pub references: Vec<RuleReference>,
    /// Languages the rule applies to; `None` means all.
    pub languages: Option<Vec<SourceLanguage>>,
}

pub struct RuleView {
    pub id: Seq<char>,
    pub category: RuleCategory,
    pub severity: Severity,
    pub title: Seq<char>,
    pub description: Seq<char>,
    pub rationale: Seq<char>,
    pub references: Seq<RuleReferenceView>,
    pub languages: Option<Seq<SourceLanguage>>,
}

impl View for Rule {
    type V = RuleView;

    open spec fn view(&self) -> RuleView {
        RuleView {
            id: self.id@,
            category: self.category,
            severity: self.severity,
            title: self.title@,
            description: self.description@,
            rationale: self.rationale@,
            references: Seq::new(self.references@.len(), |i: int| self.references@[i]@),
            languages: match self.languages {
                Some(v) => Some(v@),
                None => None,
            },
        }
    }
}

/// A source location with the text it covers.
#[derive(Debug)]
pub struct Span {
    /// File path as displayed.
    pub file: String,
    /// 1-based first line.
    pub start_line: usize,
    /// 1-based first column (in bytes).
    pub start_col: usize,
    /// 1-based last line.
    pub end_line: usize,
    /// 1-based column just past the end (in bytes).
    pub end_col: usize,
    /// Source lines covered by the span.
    pub snippet: String,
}

pub struct SpanView {
    pub file: Seq<char>,
    pub start_line: usize,
    pub start_col: usize,
    pub end_line: usize,
    pub end_col: usize,
    pub snippet: Seq<char>,
}

impl View for Span {
    type V = SpanView;

    open spec fn view(&self) -> SpanView {
        SpanView {
            file: self.file@,
            start_line: self.start_line,
            start_col: self.start_col,
            end_line: self.end_line,
            end_col: self.end_col,
            snippet: self.snippet@,
        }
    }
}

impl Span {
    /// Builds a span from its parts.
    pub fn new(
        file: &str,
        start_line: usize,
        start_col: usize,
        end_line: usize,
        end_col: usize,
        snippet: &str,
    ) -> (r: Span)
        ensures
            r@ == (SpanView {
                file: file@,
                start_line,
                start_col,
                end_line,
                end_col,
                snippet: snippet@,
            }),
    {
        Span {
            file: file.to_owned(),
            start_line,
            start_col,
            end_line,
            end_col,
            snippet: snippet.to_owned(),
        }
    }
}

/// A secondary location that gives context to a finding.
#[derive(Debug)]
pub struct RelatedSpan {
    /// Location.
    pub span: Span,
    /// Short explanation.
    pub label: String,
}

pub struct RelatedSpanView {
    pub span: SpanView,
    pub label: Seq<char>,
}

impl View for RelatedSpan {
    type V = RelatedSpanView;

    open spec fn view(&self) -> RelatedSpanView {
        RelatedSpanView { span: self.span@, label: self.label@ }
    }
}

/// One finding produced by a pass.
#[derive(Debug)]
pub struct Diagnostic {
    /// Rule that fired.
    pub rule: Rule,
    /// Primary location.
    pub span: Span,
    /// Specific message.
    pub message: String,
    /// Additional notes.
    pub notes: Vec<String>,
    /// Suggested fix.
    pub help: Option<String>,
    /// Secondary locations.
    pub related_spans: Vec<RelatedSpan>,
}

pub struct DiagnosticView {
    pub rule: RuleView,
    pub span: SpanView,
    pub message: Seq<char>,
    pub notes: Seq<Seq<char>>,
    pub help: Option<Seq<char>>,
    pub related_spans: Seq<RelatedSpanView>,
}

pub open spec fn strings_view(v: Seq<String>) -> Seq<Seq<char>> {
    Seq::new(v.len(), |i: int| v[i]@)
}

impl View for Diagnostic {
    type V = DiagnosticView;

    open spec fn view(&self) -> DiagnosticView {
        DiagnosticView {
            rule: self.rule@,
            span: self.span@,
            message: self.message@,
            notes: strings_view(self.notes@),
            help: opt_view(self.help),
            related_spans: Seq::new(self.related_spans@.len(), |i: int| self.related_spans@[i]@),
        }
    }
}

pub open spec fn diags_view(v: Seq<Diagnostic>) -> Seq<DiagnosticView> {
    Seq::new(v.len(), |i: int| v[i]@)
}

/// Severity override for one rule identifier.
#[derive(Debug)]
pub struct RuleOverride {
    /// Rule identifier the override applies to.
    pub rule_id: String,
    /// Replacement severity.
    pub severity: RuleOverrideSeverity,
}

/// Effective audit configuration.
#[derive(Debug)]
pub struct AuditConfig {
    /// Platform hint; `Auto` detects from sources.
    pub platform: PlatformHint,
    /// NASA rule 4 limit on counted function lines.
    pub max_function_lines: usize,
    /// NASA rule 5 minimum assertion count.
    pub min_assertions: usize,
    /// Glob patterns of paths left out of the audit.
    pub ignore_paths: Vec<String>,
    /// Rule identifiers left out of the audit.
    pub ignore_rules: Vec<String>,
    /// When non-empty, only these categories run.
    pub only_categories: Vec<RuleCategory>,
    /// Render help lines.
    pub show_help: bool,
    /// Render note lines.
    pub show_notes: bool,
    /// Per-rule severity overrides in key order.
    pub rule_overrides: Vec<RuleOverride>,
}

impl AuditConfig {
    /// The built-in configuration.
    pub fn default_config() -> (r: AuditConfig)
        ensures
            r.platform == PlatformHint::Auto,
            r.max_function_lines == 60,
            r.min_assertions == 2,
            r.ignore_paths@.len() == 0,
            r.ignore_rules@.len() == 0,
            r.only_categories@.len() == 0,
            r.show_help,
            r.show_notes,
            r.rule_overrides@.len() == 0,
    {
        AuditConfig {
            platform: PlatformHint::Auto,
            max_function_lines: 60,
            min_assertions: 2,
            ignore_paths: Vec::new(),
            ignore_rules: Vec::new(),
            only_categories: Vec::new(),
            show_help: true,
            show_notes: true,
            rule_overrides: Vec::new(),
        }
    }
}

impl Default for AuditConfig {
    fn default() -> (r: AuditConfig)
        ensures
            r.platform == PlatformHint::Auto,
            r.max_function_lines == 60,
            r.min_assertions == 2,
            r.ignore_paths@.len() == 0,
            r.ignore_rules@.len() == 0,
            r.only_categories@.len() == 0,
            r.show_help,
            r.show_notes,
            r.rule_overrides@.len() == 0,
    {
        AuditConfig::default_config()
    }
}

} // verus!
