//! Deterministic firmware auditing for C and C++ sources.

pub mod ast_pass;
pub mod audit;
pub mod config;
pub mod context;
pub mod crypto_pass;
pub mod diagnostic;
pub mod discover;
pub mod parser;
pub mod pass;
pub mod lex_pass;
pub mod memory_pass;
pub mod nasa_pass;
pub mod order;
pub mod paths;
pub mod progress;
pub mod report;
pub mod rules;
pub mod strs;
pub mod style_pass;
pub mod summary;
pub mod syntax;
pub mod text;
pub mod types;
pub mod words;

pub use types::{
    AuditConfig, Diagnostic, FileRole, PlatformHint, RelatedSpan, Rule, RuleCategory,
    RuleOverride, RuleOverrideSeverity, RuleReference, Severity, SourceLanguage, Span,
};
