//! The rule registry: identifiers, categories, default severities and
//! descriptions of every rule the passes report.

use vstd::prelude::*;

use crate::types::{
    Rule, RuleCategory, RuleReference, RuleReferenceView, RuleView, Severity, SourceLanguage,
};

verus! {

/// Identifier of a rule the passes can report.
#[derive(Clone, Copy, Debug, PartialEq, Eq, Structural)]
pub enum RuleId {
    /// `NRP-LIC-001`
    Lic001,
    /// `NRP-LIC-002`
    Lic002,
    /// `NRP-LIC-003`
    Lic003,
    /// `NRP-LIC-004`
    Lic004,
    /// `NRP-DOX-001`
    Dox001,
    /// `NRP-DOX-002`
    Dox002,
    /// `NRP-DOX-003`
    Dox003,
    /// `NRP-DOX-004`
    Dox004,
    /// `NRP-DOX-005`
    Dox005,
    /// `NRP-DOX-006`
    Dox006,
    /// `NRP-DOX-007`
    Dox007,
    /// `NRP-DOX-008`
    Dox008,
    /// `NRP-DOX-009`
    Dox009,
    /// `NRP-DOX-010`
    Dox010,
    /// `NRP-DOX-011`
    Dox011,
    /// `NRP-DOX-012`
    Dox012,
    /// `NRP-DOX-013`
    Dox013,
    /// `NRP-DOX-014`
    Dox014,
    /// `NRP-DOX-015`
    Dox015,
    /// `NRP-DOX-017`
    Dox017,
    /// `NRP-DOX-018`
    Dox018,
    /// `NRP-DOX-019`
    Dox019,
    /// `NRP-DOX-020`
    Dox020,
    /// `NRP-DOX-021`
    Dox021,
    /// `NRP-NASA-001`
    Nasa001,
    /// `NRP-NASA-002`
    Nasa002,
    /// `NRP-NASA-003`
    Nasa003,
    /// `NRP-NASA-004`
    Nasa004,
    /// `NRP-NASA-005`
    Nasa005,
    /// `NRP-NASA-006`
    Nasa006,
    /// `NRP-NASA-007`
    Nasa007,
    /// `NRP-NASA-008`
    Nasa008,
    /// `NRP-NASA-009`
    Nasa009,
    /// `NRP-NASA-010`
    Nasa010,
    /// `NRP-NASA-011`
    Nasa011,
    /// `NRP-NASA-012`
    Nasa012,
    /// `NRP-CRYPTO-001`
    Crypto001,
    /// `NRP-CRYPTO-002`
    Crypto002,
    /// `NRP-CRYPTO-004`
    Crypto004,
    /// `NRP-CRYPTO-005`
    Crypto005,
    /// `NRP-CRYPTO-006`
    Crypto006,
    /// `NRP-CRYPTO-007`
    Crypto007,
    /// `NRP-CRYPTO-008`
    Crypto008,
    /// `NRP-CRYPTO-009`
    Crypto009,
    /// `NRP-MEM-001`
    Mem001,
    /// `NRP-MEM-002`
    Mem002,
    /// `NRP-MEM-003`
    Mem003,
    /// `NRP-MEM-004`
    Mem004,
    /// `NRP-STYLE-001`
    Style001,
    /// `NRP-STYLE-002`
    Style002,
    /// `NRP-STYLE-003`
    Style003,
    /// `NRP-STYLE-004`
    Style004,
}

impl RuleId {
    /// The stable textual identifier, such as `NRP-NASA-006`.
    pub fn as_str(self) -> (r: &'static str)
        ensures
            r@ == self.id_text(),
    {
        match self {
            RuleId::Lic001 => "NRP-LIC-001",
            RuleId::Lic002 => "NRP-LIC-002",
            RuleId::Lic003 => "NRP-LIC-003",
            RuleId::Lic004 => "NRP-LIC-004",
            RuleId::Dox001 => "NRP-DOX-001",
            RuleId::Dox002 => "NRP-DOX-002",
            RuleId::Dox003 => "NRP-DOX-003",
            RuleId::Dox004 => "NRP-DOX-004",
            RuleId::Dox005 => "NRP-DOX-005",
            RuleId::Dox006 => "NRP-DOX-006",
            RuleId::Dox007 => "NRP-DOX-007",
            RuleId::Dox008 => "NRP-DOX-008",
            RuleId::Dox009 => "NRP-DOX-009",
            RuleId::Dox010 => "NRP-DOX-010",
            RuleId::Dox011 => "NRP-DOX-011",
            RuleId::Dox012 => "NRP-DOX-012",
            RuleId::Dox013 => "NRP-DOX-013",
            RuleId::Dox014 => "NRP-DOX-014",
            RuleId::Dox015 => "NRP-DOX-015",
            RuleId::Dox017 => "NRP-DOX-017",
            RuleId::Dox018 => "NRP-DOX-018",
            RuleId::Dox019 => "NRP-DOX-019",
            RuleId::Dox020 => "NRP-DOX-020",
            RuleId::Dox021 => "NRP-DOX-021",
            RuleId::Nasa001 => "NRP-NASA-001",
            RuleId::Nasa002 => "NRP-NASA-002",
            RuleId::Nasa003 => "NRP-NASA-003",
            RuleId::Nasa004 => "NRP-NASA-004",
            RuleId::Nasa005 => "NRP-NASA-005",
            RuleId::Nasa006 => "NRP-NASA-006",
            RuleId::Nasa007 => "NRP-NASA-007",
            RuleId::Nasa008 => "NRP-NASA-008",
            RuleId::Nasa009 => "NRP-NASA-009",
            RuleId::Nasa010 => "NRP-NASA-010",
            RuleId::Nasa011 => "NRP-NASA-011",
            RuleId::Nasa012 => "NRP-NASA-012",
            RuleId::Crypto001 => "NRP-CRYPTO-001",
            RuleId::Crypto002 => "NRP-CRYPTO-002",
            RuleId::Crypto004 => "NRP-CRYPTO-004",
            RuleId::Crypto005 => "NRP-CRYPTO-005",
            RuleId::Crypto006 => "NRP-CRYPTO-006",
            RuleId::Crypto007 => "NRP-CRYPTO-007",
            RuleId::Crypto008 => "NRP-CRYPTO-008",
            RuleId::Crypto009 => "NRP-CRYPTO-009",
            RuleId::Mem001 => "NRP-MEM-001",
            RuleId::Mem002 => "NRP-MEM-002",
            RuleId::Mem003 => "NRP-MEM-003",
            RuleId::Mem004 => "NRP-MEM-004",
            RuleId::Style001 => "NRP-STYLE-001",
            RuleId::Style002 => "NRP-STYLE-002",
            RuleId::Style003 => "NRP-STYLE-003",
            RuleId::Style004 => "NRP-STYLE-004",
        }
    }

    pub open spec fn id_text(self) -> Seq<char> {
        match self {
            RuleId::Lic001 => "NRP-LIC-001"@,
            RuleId::Lic002 => "NRP-LIC-002"@,
            RuleId::Lic003 => "NRP-LIC-003"@,
            RuleId::Lic004 => "NRP-LIC-004"@,
            RuleId::Dox001 => "NRP-DOX-001"@,
            RuleId::Dox002 => "NRP-DOX-002"@,
            RuleId::Dox003 => "NRP-DOX-003"@,
            RuleId::Dox004 => "NRP-DOX-004"@,
            RuleId::Dox005 => "NRP-DOX-005"@,
            RuleId::Dox006 => "NRP-DOX-006"@,
            RuleId::Dox007 => "NRP-DOX-007"@,
            RuleId::Dox008 => "NRP-DOX-008"@,
            RuleId::Dox009 => "NRP-DOX-009"@,
            RuleId::Dox010 => "NRP-DOX-010"@,
            RuleId::Dox011 => "NRP-DOX-011"@,
            RuleId::Dox012 => "NRP-DOX-012"@,
            RuleId::Dox013 => "NRP-DOX-013"@,
            RuleId::Dox014 => "NRP-DOX-014"@,
            RuleId::Dox015 => "NRP-DOX-015"@,
            RuleId::Dox017 => "NRP-DOX-017"@,
            RuleId::Dox018 => "NRP-DOX-018"@,
            RuleId::Dox019 => "NRP-DOX-019"@,
            RuleId::Dox020 => "NRP-DOX-020"@,
            RuleId::Dox021 => "NRP-DOX-021"@,
            RuleId::Nasa001 => "NRP-NASA-001"@,
            RuleId::Nasa002 => "NRP-NASA-002"@,
            RuleId::Nasa003 => "NRP-NASA-003"@,
            RuleId::Nasa004 => "NRP-NASA-004"@,
            RuleId::Nasa005 => "NRP-NASA-005"@,
            RuleId::Nasa006 => "NRP-NASA-006"@,
            RuleId::Nasa007 => "NRP-NASA-007"@,
            RuleId::Nasa008 => "NRP-NASA-008"@,
            RuleId::Nasa009 => "NRP-NASA-009"@,
            RuleId::Nasa010 => "NRP-NASA-010"@,
            RuleId::Nasa011 => "NRP-NASA-011"@,
            RuleId::Nasa012 => "NRP-NASA-012"@,
            RuleId::Crypto001 => "NRP-CRYPTO-001"@,
            RuleId::Crypto002 => "NRP-CRYPTO-002"@,
            RuleId::Crypto004 => "NRP-CRYPTO-004"@,
            RuleId::Crypto005 => "NRP-CRYPTO-005"@,
            RuleId::Crypto006 => "NRP-CRYPTO-006"@,
            RuleId::Crypto007 => "NRP-CRYPTO-007"@,
            RuleId::Crypto008 => "NRP-CRYPTO-008"@,
            RuleId::Crypto009 => "NRP-CRYPTO-009"@,
            RuleId::Mem001 => "NRP-MEM-001"@,
            RuleId::Mem002 => "NRP-MEM-002"@,
            RuleId::Mem003 => "NRP-MEM-003"@,
            RuleId::Mem004 => "NRP-MEM-004"@,
            RuleId::Style001 => "NRP-STYLE-001"@,
            RuleId::Style002 => "NRP-STYLE-002"@,
            RuleId::Style003 => "NRP-STYLE-003"@,
            RuleId::Style004 => "NRP-STYLE-004"@,
        }
    }
}

/// Every rule identifier, in catalog order.
pub open spec fn all_ids() -> Seq<RuleId> {
    seq![
        RuleId::Lic001,
        RuleId::Lic002,
        RuleId::Lic003,
        RuleId::Lic004,
        RuleId::Dox001,
        RuleId::Dox002,
        RuleId::Dox003,
        RuleId::Dox004,
        RuleId::Dox005,
        RuleId::Dox006,
        RuleId::Dox007,
        RuleId::Dox008,
        RuleId::Dox009,
        RuleId::Dox010,
        RuleId::Dox011,
        RuleId::Dox012,
        RuleId::Dox013,
        RuleId::Dox014,
        RuleId::Dox015,
        RuleId::Dox017,
        RuleId::Dox018,
        RuleId::Dox019,
        RuleId::Dox020,
        RuleId::Dox021,
        RuleId::Nasa001,
        RuleId::Nasa002,
        RuleId::Nasa003,
        RuleId::Nasa004,
        RuleId::Nasa005,
        RuleId::Nasa006,
        RuleId::Nasa007,
        RuleId::Nasa008,
        RuleId::Nasa009,
        RuleId::Nasa010,
        RuleId::Nasa011,
        RuleId::Nasa012,
        RuleId::Crypto001,
        RuleId::Crypto002,
        RuleId::Crypto004,
        RuleId::Crypto005,
        RuleId::Crypto006,
        RuleId::Crypto007,
        RuleId::Crypto008,
        RuleId::Crypto009,
        RuleId::Mem001,
        RuleId::Mem002,
        RuleId::Mem003,
        RuleId::Mem004,
        RuleId::Style001,
        RuleId::Style002,
        RuleId::Style003,
        RuleId::Style004
    ]
}

pub proof fn lemma_all_ids_complete(rid: RuleId)
    ensures
        all_ids().contains(rid),
{
    let s = all_ids();
    match rid {
        RuleId::Lic001 => { assert(s[0] == rid); },
        RuleId::Lic002 => { assert(s[1] == rid); },
        RuleId::Lic003 => { assert(s[2] == rid); },
        RuleId::Lic004 => { assert(s[3] == rid); },
        RuleId::Dox001 => { assert(s[4] == rid); },
        RuleId::Dox002 => { assert(s[5] == rid); },
        RuleId::Dox003 => { assert(s[6] == rid); },
        RuleId::Dox004 => { assert(s[7] == rid); },
        RuleId::Dox005 => { assert(s[8] == rid); },
        RuleId::Dox006 => { assert(s[9] == rid); },
        RuleId::Dox007 => { assert(s[10] == rid); },
        RuleId::Dox008 => { assert(s[11] == rid); },
        RuleId::Dox009 => { assert(s[12] == rid); },
        RuleId::Dox010 => { assert(s[13] == rid); },
        RuleId::Dox011 => { assert(s[14] == rid); },
        RuleId::Dox012 => { assert(s[15] == rid); },
        RuleId::Dox013 => { assert(s[16] == rid); },
        RuleId::Dox014 => { assert(s[17] == rid); },
        RuleId::Dox015 => { assert(s[18] == rid); },
        RuleId::Dox017 => { assert(s[19] == rid); },
        RuleId::Dox018 => { assert(s[20] == rid); },
        RuleId::Dox019 => { assert(s[21] == rid); },
        RuleId::Dox020 => { assert(s[22] == rid); },
        RuleId::Dox021 => { assert(s[23] == rid); },
        RuleId::Nasa001 => { assert(s[24] == rid); },
        RuleId::Nasa002 => { assert(s[25] == rid); },
        RuleId::Nasa003 => { assert(s[26] == rid); },
        RuleId::Nasa004 => { assert(s[27] == rid); },
        RuleId::Nasa005 => { assert(s[28] == rid); },
        RuleId::Nasa006 => { assert(s[29] == rid); },
        RuleId::Nasa007 => { assert(s[30] == rid); },
        RuleId::Nasa008 => { assert(s[31] == rid); },
        RuleId::Nasa009 => { assert(s[32] == rid); },
        RuleId::Nasa010 => { assert(s[33] == rid); },
        RuleId::Nasa011 => { assert(s[34] == rid); },
        RuleId::Nasa012 => { assert(s[35] == rid); },
        RuleId::Crypto001 => { assert(s[36] == rid); },
        RuleId::Crypto002 => { assert(s[37] == rid); },
        RuleId::Crypto004 => { assert(s[38] == rid); },
        RuleId::Crypto005 => { assert(s[39] == rid); },
        RuleId::Crypto006 => { assert(s[40] == rid); },
        RuleId::Crypto007 => { assert(s[41] == rid); },
        RuleId::Crypto008 => { assert(s[42] == rid); },
        RuleId::Crypto009 => { assert(s[43] == rid); },
        RuleId::Mem001 => { assert(s[44] == rid); },
        RuleId::Mem002 => { assert(s[45] == rid); },
        RuleId::Mem003 => { assert(s[46] == rid); },
        RuleId::Mem004 => { assert(s[47] == rid); },
        RuleId::Style001 => { assert(s[48] == rid); },
        RuleId::Style002 => { assert(s[49] == rid); },
        RuleId::Style003 => { assert(s[50] == rid); },
        RuleId::Style004 => { assert(s[51] == rid); },
    }
}

/// Descriptor of each rule.
pub open spec fn rule_view(id: RuleId) -> RuleView {
    match id {
            RuleId::Lic001 => RuleView {
                id: "NRP-LIC-001"@,
                category: RuleCategory::License,
                severity: Severity::Error,
                title: "missing-spdx-identifier"@,
                description: "The file has no SPDX-License-Identifier line."@,
                rationale: "Every source file must state its license in machine-readable form."@,
                references: seq![RuleReferenceView { label: "SPDX License List"@, file: None, section: None, url: Some("https://spdx.org/licenses/"@) }],
                languages: None,
            },
            RuleId::Lic002 => RuleView {
                id: "NRP-LIC-002"@,
                category: RuleCategory::License,
                severity: Severity::Error,
                title: "missing-spdx-copyright"@,
                description: "The file has no SPDX-FileCopyrightText line."@,
                rationale: "Copyright attribution is required for audit traceability."@,
                references: seq![RuleReferenceView { label: "SPDX License List"@, file: None, section: None, url: Some("https://spdx.org/licenses/"@) }],
                languages: None,
            },
            RuleId::Lic003 => RuleView {
                id: "NRP-LIC-003"@,
                category: RuleCategory::License,
                severity: Severity::Warning,
                title: "header-order"@,
                description: "An include guard appears before the file-level Doxygen block."@,
                rationale: "The file header must be the first meaningful thing in the file."@,
                references: Seq::empty(),
                languages: None,
            },
            RuleId::Lic004 => RuleView {
                id: "NRP-LIC-004"@,
                category: RuleCategory::License,
                severity: Severity::Warning,
                title: "spdx-outside-doc-block"@,
                description: "An SPDX line sits outside the file-level Doxygen block."@,
                rationale: "Keeping SPDX lines in the header block keeps headers uniform."@,
                references: Seq::empty(),
                languages: None,
            },
            RuleId::Dox001 => RuleView {
                id: "NRP-DOX-001"@,
                category: RuleCategory::Doxygen,
                severity: Severity::Error,
                title: "missing-file-header"@,
                description: "No file-level Doxygen block with @file was found."@,
                rationale: "Every file needs a canonical header for generated documentation."@,
                references: Seq::empty(),
                languages: Some(seq![SourceLanguage::C, SourceLanguage::Cpp]),
            },
            RuleId::Dox002 => RuleView {
                id: "NRP-DOX-002"@,
                category: RuleCategory::Doxygen,
                severity: Severity::Error,
                title: "missing-file-brief"@,
                description: "The file header has no @brief."@,
                rationale: "Readers need a one-sentence summary of the file."@,
                references: Seq::empty(),
                languages: Some(seq![SourceLanguage::C, SourceLanguage::Cpp]),
            },
            RuleId::Dox003 => RuleView {
                id: "NRP-DOX-003"@,
                category: RuleCategory::Doxygen,
                severity: Severity::Warning,
                title: "generic-file-brief"@,
                description: "The file @brief only names the artifact type."@,
                rationale: "A brief should describe responsibility, not the kind of file."@,
                references: Seq::empty(),
                languages: Some(seq![SourceLanguage::C, SourceLanguage::Cpp]),
            },
            RuleId::Dox004 => RuleView {
                id: "NRP-DOX-004"@,
                category: RuleCategory::Doxygen,
                severity: Severity::Warning,
                title: "missing-file-details"@,
                description: "The file header has no @details section."@,
                rationale: "Design context belongs in the file header."@,
                references: Seq::empty(),
                languages: Some(seq![SourceLanguage::C, SourceLanguage::Cpp]),
            },
            RuleId::Dox005 => RuleView {
                id: "NRP-DOX-005"@,
                category: RuleCategory::Doxygen,
                severity: Severity::Warning,
                title: "missing-file-metadata"@,
                description: "The file header lacks @author, @date or @version."@,
                rationale: "Metadata keeps audits traceable."@,
                references: Seq::empty(),
                languages: Some(seq![SourceLanguage::C, SourceLanguage::Cpp]),
            },
            RuleId::Dox006 => RuleView {
                id: "NRP-DOX-006"@,
                category: RuleCategory::Doxygen,
                severity: Severity::Error,
                title: "missing-class-doc"@,
                description: "A public class has no Doxygen block."@,
                rationale: "Public classes are part of the documented API."@,
                references: Seq::empty(),
                languages: Some(seq![SourceLanguage::C, SourceLanguage::Cpp]),
            },
            RuleId::Dox007 => RuleView {
                id: "NRP-DOX-007"@,
                category: RuleCategory::Doxygen,
                severity: Severity::Warning,
                title: "incomplete-class-doc"@,
                description: "A class block lacks @details or @see."@,
                rationale: "Class docs should carry context and cross-references."@,
                references: Seq::empty(),
                languages: Some(seq![SourceLanguage::C, SourceLanguage::Cpp]),
            },
            RuleId::Dox008 => RuleView {
                id: "NRP-DOX-008"@,
                category: RuleCategory::Doxygen,
                severity: Severity::Error,
                title: "missing-struct-doc"@,
                description: "A public struct has no Doxygen block."@,
                rationale: "Public structs are part of the documented API."@,
                references: Seq::empty(),
                languages: Some(seq![SourceLanguage::C, SourceLanguage::Cpp]),
            },
            RuleId::Dox009 => RuleView {
                id: "NRP-DOX-009"@,
                category: RuleCategory::Doxygen,
                severity: Severity::Warning,
                title: "missing-field-doc"@,
                description: "A struct field has no ///< inline documentation."@,
                rationale: "Fields carry units, ranges and wire semantics."@,
                references: Seq::empty(),
                languages: Some(seq![SourceLanguage::C, SourceLanguage::Cpp]),
            },
            RuleId::Dox010 => RuleView {
                id: "NRP-DOX-010"@,
                category: RuleCategory::Doxygen,
                severity: Severity::Error,
                title: "missing-enum-doc"@,
                description: "A public enum has no Doxygen block."@,
                rationale: "Public enums are part of the documented API."@,
                references: Seq::empty(),
                languages: Some(seq![SourceLanguage::C, SourceLanguage::Cpp]),
            },
            RuleId::Dox011 => RuleView {
                id: "NRP-DOX-011"@,
                category: RuleCategory::Doxygen,
                severity: Severity::Warning,
                title: "plain-enum"@,
                description: "A C++ enum is not an enum class."@,
                rationale: "Scoped enums avoid implicit conversions."@,
                references: Seq::empty(),
                languages: Some(seq![SourceLanguage::C, SourceLanguage::Cpp]),
            },
            RuleId::Dox012 => RuleView {
                id: "NRP-DOX-012"@,
                category: RuleCategory::Doxygen,
                severity: Severity::Error,
                title: "missing-function-doc"@,
                description: "A public function declaration has no Doxygen block."@,
                rationale: "Callers rely on documented contracts."@,
                references: Seq::empty(),
                languages: Some(seq![SourceLanguage::C, SourceLanguage::Cpp]),
            },
            RuleId::Dox013 => RuleView {
                id: "NRP-DOX-013"@,
                category: RuleCategory::Doxygen,
                severity: Severity::Warning,
                title: "missing-function-brief"@,
                description: "A function doc block has no @brief."@,
                rationale: "Every documented function needs a summary."@,
                references: Seq::empty(),
                languages: Some(seq![SourceLanguage::C, SourceLanguage::Cpp]),
            },
            RuleId::Dox014 => RuleView {
                id: "NRP-DOX-014"@,
                category: RuleCategory::Doxygen,
                severity: Severity::Warning,
                title: "missing-param-doc"@,
                description: "A declared parameter has no @param."@,
                rationale: "Every parameter belongs in the contract."@,
                references: Seq::empty(),
                languages: Some(seq![SourceLanguage::C, SourceLanguage::Cpp]),
            },
            RuleId::Dox015 => RuleView {
                id: "NRP-DOX-015"@,
                category: RuleCategory::Doxygen,
                severity: Severity::Warning,
                title: "missing-return-doc"@,
                description: "A non-void function has no @return."@,
                rationale: "Return semantics must be documented."@,
                references: Seq::empty(),
                languages: Some(seq![SourceLanguage::C, SourceLanguage::Cpp]),
            },
            RuleId::Dox017 => RuleView {
                id: "NRP-DOX-017"@,
                category: RuleCategory::Doxygen,
                severity: Severity::Info,
                title: "missing-contract-doc"@,
                description: "A function doc block has neither @pre nor @post."@,
                rationale: "Contracts make preconditions explicit."@,
                references: Seq::empty(),
                languages: Some(seq![SourceLanguage::C, SourceLanguage::Cpp]),
            },
            RuleId::Dox018 => RuleView {
                id: "NRP-DOX-018"@,
                category: RuleCategory::Doxygen,
                severity: Severity::Info,
                title: "missing-see-doc"@,
                description: "A function doc block has no @see."@,
                rationale: "Cross-references help navigation."@,
                references: Seq::empty(),
                languages: Some(seq![SourceLanguage::C, SourceLanguage::Cpp]),
            },
            RuleId::Dox019 => RuleView {
                id: "NRP-DOX-019"@,
                category: RuleCategory::Doxygen,
                severity: Severity::Warning,
                title: "missing-ingroup"@,
                description: "A header with API declarations has no @ingroup."@,
                rationale: "Groups organise the generated documentation."@,
                references: Seq::empty(),
                languages: Some(seq![SourceLanguage::C, SourceLanguage::Cpp]),
            },
            RuleId::Dox020 => RuleView {
                id: "NRP-DOX-020"@,
                category: RuleCategory::Doxygen,
                severity: Severity::Error,
                title: "undefined-group"@,
                description: "An @ingroup names a group no @defgroup declares."@,
                rationale: "Dangling groups break the documentation tree."@,
                references: Seq::empty(),
                languages: Some(seq![SourceLanguage::C, SourceLanguage::Cpp]),
            },
            RuleId::Dox021 => RuleView {
                id: "NRP-DOX-021"@,
                category: RuleCategory::Doxygen,
                severity: Severity::Error,
                title: "module-doc-without-defgroup"@,
                description: "module-doc.h declares no @defgroup."@,
                rationale: "module-doc.h exists to declare a group."@,
                references: Seq::empty(),
                languages: Some(seq![SourceLanguage::C, SourceLanguage::Cpp]),
            },
            RuleId::Nasa001 => RuleView {
                id: "NRP-NASA-001"@,
                category: RuleCategory::Nasa,
                severity: Severity::Error,
                title: "no-goto"@,
                description: "A goto statement is used."@,
                rationale: "NASA JPL Rule 1: simple control flow."@,
                references: Seq::empty(),
                languages: Some(seq![SourceLanguage::C, SourceLanguage::Cpp]),
            },
            RuleId::Nasa002 => RuleView {
                id: "NRP-NASA-002"@,
                category: RuleCategory::Nasa,
                severity: Severity::Error,
                title: "no-setjmp-longjmp"@,
                description: "setjmp or longjmp is called."@,
                rationale: "NASA JPL Rule 1: no non-local jumps."@,
                references: Seq::empty(),
                languages: Some(seq![SourceLanguage::C, SourceLanguage::Cpp]),
            },
            RuleId::Nasa003 => RuleView {
                id: "NRP-NASA-003"@,
                category: RuleCategory::Nasa,
                severity: Severity::Error,
                title: "no-recursion"@,
                description: "A function calls itself directly."@,
                rationale: "NASA JPL Rule 1: no recursion."@,
                references: Seq::empty(),
                languages: Some(seq![SourceLanguage::C, SourceLanguage::Cpp]),
            },
            RuleId::Nasa004 => RuleView {
                id: "NRP-NASA-004"@,
                category: RuleCategory::Nasa,
                severity: Severity::Warning,
                title: "loop-bound"@,
                description: "A loop has no documented upper bound."@,
                rationale: "NASA JPL Rule 2: fixed loop bounds."@,
                references: Seq::empty(),
                languages: Some(seq![SourceLanguage::C, SourceLanguage::Cpp]),
            },
            RuleId::Nasa005 => RuleView {
                id: "NRP-NASA-005"@,
                category: RuleCategory::Nasa,
                severity: Severity::Error,
                title: "no-dynamic-alloc"@,
                description: "A dynamic allocation function is called."@,
                rationale: "NASA JPL Rule 3: no allocation after initialisation."@,
                references: Seq::empty(),
                languages: Some(seq![SourceLanguage::C, SourceLanguage::Cpp]),
            },
            RuleId::Nasa006 => RuleView {
                id: "NRP-NASA-006"@,
                category: RuleCategory::Nasa,
                severity: Severity::Error,
                title: "function-too-long"@,
                description: "A function body exceeds the configured line limit."@,
                rationale: "NASA JPL Rule 4: short functions."@,
                references: Seq::empty(),
                languages: Some(seq![SourceLanguage::C, SourceLanguage::Cpp]),
            },
            RuleId::Nasa007 => RuleView {
                id: "NRP-NASA-007"@,
                category: RuleCategory::Nasa,
                severity: Severity::Warning,
                title: "min-assertions"@,
                description: "A non-trivial function has too few assertions."@,
                rationale: "NASA JPL Rule 5: assertion density."@,
                references: Seq::empty(),
                languages: Some(seq![SourceLanguage::C, SourceLanguage::Cpp]),
            },
            RuleId::Nasa008 => RuleView {
                id: "NRP-NASA-008"@,
                category: RuleCategory::Nasa,
                severity: Severity::Warning,
                title: "unchecked-return"@,
                description: "A non-void return value is discarded."@,
                rationale: "NASA JPL Rule 7: check return values."@,
                references: Seq::empty(),
                languages: Some(seq![SourceLanguage::C, SourceLanguage::Cpp]),
            },
            RuleId::Nasa009 => RuleView {
                id: "NRP-NASA-009"@,
                category: RuleCategory::Nasa,
                severity: Severity::Info,
                title: "macro-constant"@,
                description: "A #define declares a constant."@,
                rationale: "NASA JPL Rule 8: limited preprocessor use."@,
                references: Seq::empty(),
                languages: Some(seq![SourceLanguage::C, SourceLanguage::Cpp]),
            },
            RuleId::Nasa010 => RuleView {
                id: "NRP-NASA-010"@,
                category: RuleCategory::Nasa,
                severity: Severity::Warning,
                title: "function-like-macro"@,
                description: "A #define declares a function-like macro."@,
                rationale: "NASA JPL Rule 8: limited preprocessor use."@,
                references: Seq::empty(),
                languages: Some(seq![SourceLanguage::C, SourceLanguage::Cpp]),
            },
            RuleId::Nasa011 => RuleView {
                id: "NRP-NASA-011"@,
                category: RuleCategory::Nasa,
                severity: Severity::Warning,
                title: "broad-global"@,
                description: "A global variable has file-wide scope."@,
                rationale: "NASA JPL Rule 6: smallest possible scope."@,
                references: Seq::empty(),
                languages: Some(seq![SourceLanguage::C, SourceLanguage::Cpp]),
            },
            RuleId::Nasa012 => RuleView {
                id: "NRP-NASA-012"@,
                category: RuleCategory::Nasa,
                severity: Severity::Info,
                title: "const-local"@,
                description: "A local is never mutated but is not const."@,
                rationale: "Immutability documents intent."@,
                references: Seq::empty(),
                languages: Some(seq![SourceLanguage::C, SourceLanguage::Cpp]),
            },
            RuleId::Crypto001 => RuleView {
                id: "NRP-CRYPTO-001"@,
                category: RuleCategory::Crypto,
                severity: Severity::Warning,
                title: "memset-zeroization"@,
                description: "memset is used to wipe a crypto buffer."@,
                rationale: "The compiler may remove a dead memset."@,
                references: Seq::empty(),
                languages: Some(seq![SourceLanguage::C, SourceLanguage::Cpp]),
            },
            RuleId::Crypto002 => RuleView {
                id: "NRP-CRYPTO-002"@,
                category: RuleCategory::Crypto,
                severity: Severity::Error,
                title: "key-in-log"@,
                description: "Key material is passed to a log function."@,
                rationale: "Logs must never carry secrets."@,
                references: Seq::empty(),
                languages: Some(seq![SourceLanguage::C, SourceLanguage::Cpp]),
            },
            RuleId::Crypto004 => RuleView {
                id: "NRP-CRYPTO-004"@,
                category: RuleCategory::Crypto,
                severity: Severity::Error,
                title: "flash-buffer-to-cryptocell"@,
                description: "A const or flash buffer is passed to nrf_crypto."@,
                rationale: "CryptoCell DMA needs RAM buffers."@,
                references: Seq::empty(),
                languages: Some(seq![SourceLanguage::C, SourceLanguage::Cpp]),
            },
            RuleId::Crypto005 => RuleView {
                id: "NRP-CRYPTO-005"@,
                category: RuleCategory::Crypto,
                severity: Severity::Warning,
                title: "hardware-crypto-without-mutex"@,
                description: "Hardware crypto is called without a visible lock."@,
                rationale: "Crypto peripherals are shared resources."@,
                references: Seq::empty(),
                languages: Some(seq![SourceLanguage::C, SourceLanguage::Cpp]),
            },
            RuleId::Crypto006 => RuleView {
                id: "NRP-CRYPTO-006"@,
                category: RuleCategory::Crypto,
                severity: Severity::Error,
                title: "cc312-direct-register"@,
                description: "CC312 registers are accessed directly."@,
                rationale: "CC312 belongs to the secure platform wrapper."@,
                references: Seq::empty(),
                languages: Some(seq![SourceLanguage::C, SourceLanguage::Cpp]),
            },
            RuleId::Crypto007 => RuleView {
                id: "NRP-CRYPTO-007"@,
                category: RuleCategory::Crypto,
                severity: Severity::Error,
                title: "iv-reuse"@,
                description: "An IV or nonce is reused across encrypt calls."@,
                rationale: "IV reuse breaks confidentiality."@,
                references: Seq::empty(),
                languages: Some(seq![SourceLanguage::C, SourceLanguage::Cpp]),
            },
            RuleId::Crypto008 => RuleView {
                id: "NRP-CRYPTO-008"@,
                category: RuleCategory::Crypto,
                severity: Severity::Error,
                title: "crypto-in-isr"@,
                description: "Crypto is called inside an interrupt handler."@,
                rationale: "ISRs must stay short and lock-free."@,
                references: Seq::empty(),
                languages: Some(seq![SourceLanguage::C, SourceLanguage::Cpp]),
            },
            RuleId::Crypto009 => RuleView {
                id: "NRP-CRYPTO-009"@,
                category: RuleCategory::Crypto,
                severity: Severity::Warning,
                title: "raw-key-in-api"@,
                description: "A public API takes raw key bytes."@,
                rationale: "Key handles keep secrets out of application memory."@,
                references: Seq::empty(),
                languages: Some(seq![SourceLanguage::C, SourceLanguage::Cpp]),
            },
            RuleId::Mem001 => RuleView {
                id: "NRP-MEM-001"@,
                category: RuleCategory::Memory,
                severity: Severity::Warning,
                title: "array-bounds"@,
                description: "An array index has no visible bounds check."@,
                rationale: "Unchecked indices corrupt memory."@,
                references: Seq::empty(),
                languages: Some(seq![SourceLanguage::C, SourceLanguage::Cpp]),
            },
            RuleId::Mem002 => RuleView {
                id: "NRP-MEM-002"@,
                category: RuleCategory::Memory,
                severity: Severity::Error,
                title: "null-check"@,
                description: "A pointer parameter is dereferenced without a null check."@,
                rationale: "Null dereferences crash firmware."@,
                references: Seq::empty(),
                languages: Some(seq![SourceLanguage::C, SourceLanguage::Cpp]),
            },
            RuleId::Mem003 => RuleView {
                id: "NRP-MEM-003"@,
                category: RuleCategory::Memory,
                severity: Severity::Warning,
                title: "size-overflow"@,
                description: "Size arithmetic has no overflow guard."@,
                rationale: "Wrapped sizes lead to short allocations."@,
                references: Seq::empty(),
                languages: Some(seq![SourceLanguage::C, SourceLanguage::Cpp]),
            },
            RuleId::Mem004 => RuleView {
                id: "NRP-MEM-004"@,
                category: RuleCategory::Memory,
                severity: Severity::Warning,
                title: "size-narrowing"@,
                description: "A size is narrowed without a range check."@,
                rationale: "Narrowing silently truncates lengths."@,
                references: Seq::empty(),
                languages: Some(seq![SourceLanguage::C, SourceLanguage::Cpp]),
            },
            RuleId::Style001 => RuleView {
                id: "NRP-STYLE-001"@,
                category: RuleCategory::Style,
                severity: Severity::Warning,
                title: "banned-words"@,
                description: "Documentation uses a banned word or phrase."@,
                rationale: "Plain technical language reads better."@,
                references: Seq::empty(),
                languages: Some(seq![SourceLanguage::C, SourceLanguage::Cpp]),
            },
            RuleId::Style002 => RuleView {
                id: "NRP-STYLE-002"@,
                category: RuleCategory::Style,
                severity: Severity::Warning,
                title: "em-dash"@,
                description: "Documentation contains an em-dash."@,
                rationale: "The documentation style forbids em dashes."@,
                references: Seq::empty(),
                languages: Some(seq![SourceLanguage::C, SourceLanguage::Cpp]),
            },
            RuleId::Style003 => RuleView {
                id: "NRP-STYLE-003"@,
                category: RuleCategory::Style,
                severity: Severity::Warning,
                title: "generic-brief"@,
                description: "An @brief only names the kind of declaration."@,
                rationale: "A brief should describe behavior."@,
                references: Seq::empty(),
                languages: Some(seq![SourceLanguage::C, SourceLanguage::Cpp]),
            },
            RuleId::Style004 => RuleView {
                id: "NRP-STYLE-004"@,
                category: RuleCategory::Style,
                severity: Severity::Info,
                title: "crypto-hardware-backend"@,
                description: "Crypto documentation does not name its hardware backend."@,
                rationale: "Readers need to know which accelerator is used."@,
                references: Seq::empty(),
                languages: Some(seq![SourceLanguage::C, SourceLanguage::Cpp]),
            },
    }
}

fn c_cpp() -> (r: Vec<SourceLanguage>)
    ensures
        r@ == seq![SourceLanguage::C, SourceLanguage::Cpp],
{
    let mut v = Vec::new();
    v.push(SourceLanguage::C);
    v.push(SourceLanguage::Cpp);
    v
}

fn one_reference(label: &str, url: &str) -> (r: Vec<RuleReference>)
    ensures
        r@.len() == 1,
        r@[0]@ == (RuleReferenceView { label: label@, file: None, section: None, url: Some(url@) }),
{
    let mut v = Vec::new();
    v.push(RuleReference { label: label.to_owned(), file: None, section: None, url: Some(url.to_owned()) });
    v
}

fn make_rule(
    id: &str,
    category: RuleCategory,
    severity: Severity,
    title: &str,
    description: &str,
    rationale: &str,
    references: Vec<RuleReference>,
    languages: Option<Vec<SourceLanguage>>,
) -> (r: Rule)
    ensures
        r.id@ == id@,
        r.category == category,
        r.severity == severity,
        r.title@ == title@,
        r.description@ == description@,
        r.rationale@ == rationale@,
        r.references == references,
        r.languages == languages,
{
    Rule {
        id: id.to_owned(),
        category,
        severity,
        title: title.to_owned(),
        description: description.to_owned(),
        rationale: rationale.to_owned(),
        references,
        languages,
    }
}

/// Builds the descriptor of a rule.
pub fn rule(id: RuleId) -> (r: Rule)
    ensures
        r@ == rule_view(id),
{
    let r = match id {
            RuleId::Lic001 => make_rule(
                "NRP-LIC-001",
                RuleCategory::License,
                Severity::Error,
                "missing-spdx-identifier",
                "The file has no SPDX-License-Identifier line.",
                "Every source file must state its license in machine-readable form.",
                one_reference("SPDX License List", "https://spdx.org/licenses/"),
                None,
            ),
            RuleId::Lic002 => make_rule(
                "NRP-LIC-002",
                RuleCategory::License,
                Severity::Error,
                "missing-spdx-copyright",
                "The file has no SPDX-FileCopyrightText line.",
                "Copyright attribution is required for audit traceability.",
                one_reference("SPDX License List", "https://spdx.org/licenses/"),
                None,
            ),
            RuleId::Lic003 => make_rule(
                "NRP-LIC-003",
                RuleCategory::License,
                Severity::Warning,
                "header-order",
                "An include guard appears before the file-level Doxygen block.",
                "The file header must be the first meaningful thing in the file.",
                Vec::new(),
                None,
            ),
            RuleId::Lic004 => make_rule(
                "NRP-LIC-004",
                RuleCategory::License,
                Severity::Warning,
                "spdx-outside-doc-block",
                "An SPDX line sits outside the file-level Doxygen block.",
                "Keeping SPDX lines in the header block keeps headers uniform.",
                Vec::new(),
                None,
            ),
            RuleId::Dox001 => make_rule(
                "NRP-DOX-001",
                RuleCategory::Doxygen,
                Severity::Error,
                "missing-file-header",
                "No file-level Doxygen block with @file was found.",
                "Every file needs a canonical header for generated documentation.",
                Vec::new(),
                Some(c_cpp()),
            ),
            RuleId::Dox002 => make_rule(
                "NRP-DOX-002",
                RuleCategory::Doxygen,
                Severity::Error,
                "missing-file-brief",
                "The file header has no @brief.",
                "Readers need a one-sentence summary of the file.",
                Vec::new(),
                Some(c_cpp()),
            ),
            RuleId::Dox003 => make_rule(
                "NRP-DOX-003",
                RuleCategory::Doxygen,
                Severity::Warning,
                "generic-file-brief",
                "The file @brief only names the artifact type.",
                "A brief should describe responsibility, not the kind of file.",
                Vec::new(),
                Some(c_cpp()),
            ),
            RuleId::Dox004 => make_rule(
                "NRP-DOX-004",
                RuleCategory::Doxygen,
                Severity::Warning,
                "missing-file-details",
                "The file header has no @details section.",
                "Design context belongs in the file header.",
                Vec::new(),
                Some(c_cpp()),
            ),
            RuleId::Dox005 => make_rule(
                "NRP-DOX-005",
                RuleCategory::Doxygen,
                Severity::Warning,
                "missing-file-metadata",
                "The file header lacks @author, @date or @version.",
                "Metadata keeps audits traceable.",
                Vec::new(),
                Some(c_cpp()),
            ),
            RuleId::Dox006 => make_rule(
                "NRP-DOX-006",
                RuleCategory::Doxygen,
                Severity::Error,
                "missing-class-doc",
                "A public class has no Doxygen block.",
                "Public classes are part of the documented API.",
                Vec::new(),
                Some(c_cpp()),
            ),
            RuleId::Dox007 => make_rule(
                "NRP-DOX-007",
                RuleCategory::Doxygen,
                Severity::Warning,
                "incomplete-class-doc",
                "A class block lacks @details or @see.",
                "Class docs should carry context and cross-references.",
                Vec::new(),
                Some(c_cpp()),
            ),
            RuleId::Dox008 => make_rule(
                "NRP-DOX-008",
                RuleCategory::Doxygen,
                Severity::Error,
                "missing-struct-doc",
                "A public struct has no Doxygen block.",
                "Public structs are part of the documented API.",
                Vec::new(),
                Some(c_cpp()),
            ),
            RuleId::Dox009 => make_rule(
                "NRP-DOX-009",
                RuleCategory::Doxygen,
                Severity::Warning,
                "missing-field-doc",
                "A struct field has no ///< inline documentation.",
                "Fields carry units, ranges and wire semantics.",
                Vec::new(),
                Some(c_cpp()),
            ),
            RuleId::Dox010 => make_rule(
                "NRP-DOX-010",
                RuleCategory::Doxygen,
                Severity::Error,
                "missing-enum-doc",
                "A public enum has no Doxygen block.",
                "Public enums are part of the documented API.",
                Vec::new(),
                Some(c_cpp()),
            ),
            RuleId::Dox011 => make_rule(
                "NRP-DOX-011",
                RuleCategory::Doxygen,
                Severity::Warning,
                "plain-enum",
                "A C++ enum is not an enum class.",
                "Scoped enums avoid implicit conversions.",
                Vec::new(),
                Some(c_cpp()),
            ),
            RuleId::Dox012 => make_rule(
                "NRP-DOX-012",
                RuleCategory::Doxygen,
                Severity::Error,
                "missing-function-doc",
                "A public function declaration has no Doxygen block.",
                "Callers rely on documented contracts.",
                Vec::new(),
                Some(c_cpp()),
            ),
            RuleId::Dox013 => make_rule(
                "NRP-DOX-013",
                RuleCategory::Doxygen,
                Severity::Warning,
                "missing-function-brief",
                "A function doc block has no @brief.",
                "Every documented function needs a summary.",
                Vec::new(),
                Some(c_cpp()),
            ),
            RuleId::Dox014 => make_rule(
                "NRP-DOX-014",
                RuleCategory::Doxygen,
                Severity::Warning,
                "missing-param-doc",
                "A declared parameter has no @param.",
                "Every parameter belongs in the contract.",
                Vec::new(),
                Some(c_cpp()),
            ),
            RuleId::Dox015 => make_rule(
                "NRP-DOX-015",
                RuleCategory::Doxygen,
                Severity::Warning,
                "missing-return-doc",
                "A non-void function has no @return.",
                "Return semantics must be documented.",
                Vec::new(),
                Some(c_cpp()),
            ),
            RuleId::Dox017 => make_rule(
                "NRP-DOX-017",
                RuleCategory::Doxygen,
                Severity::Info,
                "missing-contract-doc",
                "A function doc block has neither @pre nor @post.",
                "Contracts make preconditions explicit.",
                Vec::new(),
                Some(c_cpp()),
            ),
            RuleId::Dox018 => make_rule(
                "NRP-DOX-018",
                RuleCategory::Doxygen,
                Severity::Info,
                "missing-see-doc",
                "A function doc block has no @see.",
                "Cross-references help navigation.",
                Vec::new(),
                Some(c_cpp()),
            ),
            RuleId::Dox019 => make_rule(
                "NRP-DOX-019",
                RuleCategory::Doxygen,
                Severity::Warning,
                "missing-ingroup",
                "A header with API declarations has no @ingroup.",
                "Groups organise the generated documentation.",
                Vec::new(),
                Some(c_cpp()),
            ),
            RuleId::Dox020 => make_rule(
                "NRP-DOX-020",
                RuleCategory::Doxygen,
                Severity::Error,
                "undefined-group",
                "An @ingroup names a group no @defgroup declares.",
                "Dangling groups break the documentation tree.",
                Vec::new(),
                Some(c_cpp()),
            ),
            RuleId::Dox021 => make_rule(
                "NRP-DOX-021",
                RuleCategory::Doxygen,
                Severity::Error,
                "module-doc-without-defgroup",
                "module-doc.h declares no @defgroup.",
                "module-doc.h exists to declare a group.",
                Vec::new(),
                Some(c_cpp()),
            ),
            RuleId::Nasa001 => make_rule(
                "NRP-NASA-001",
                RuleCategory::Nasa,
                Severity::Error,
                "no-goto",
                "A goto statement is used.",
                "NASA JPL Rule 1: simple control flow.",
                Vec::new(),
                Some(c_cpp()),
            ),
            RuleId::Nasa002 => make_rule(
                "NRP-NASA-002",
                RuleCategory::Nasa,
                Severity::Error,
                "no-setjmp-longjmp",
                "setjmp or longjmp is called.",
                "NASA JPL Rule 1: no non-local jumps.",
                Vec::new(),
                Some(c_cpp()),
            ),
            RuleId::Nasa003 => make_rule(
                "NRP-NASA-003",
                RuleCategory::Nasa,
                Severity::Error,
                "no-recursion",
                "A function calls itself directly.",
                "NASA JPL Rule 1: no recursion.",
                Vec::new(),
                Some(c_cpp()),
            ),
            RuleId::Nasa004 => make_rule(
                "NRP-NASA-004",
                RuleCategory::Nasa,
                Severity::Warning,
                "loop-bound",
                "A loop has no documented upper bound.",
                "NASA JPL Rule 2: fixed loop bounds.",
                Vec::new(),
                Some(c_cpp()),
            ),
            RuleId::Nasa005 => make_rule(
                "NRP-NASA-005",
                RuleCategory::Nasa,
                Severity::Error,
                "no-dynamic-alloc",
                "A dynamic allocation function is called.",
                "NASA JPL Rule 3: no allocation after initialisation.",
                Vec::new(),
                Some(c_cpp()),
            ),
            RuleId::Nasa006 => make_rule(
                "NRP-NASA-006",
                RuleCategory::Nasa,
                Severity::Error,
                "function-too-long",
                "A function body exceeds the configured line limit.",
                "NASA JPL Rule 4: short functions.",
                Vec::new(),
                Some(c_cpp()),
            ),
            RuleId::Nasa007 => make_rule(
                "NRP-NASA-007",
                RuleCategory::Nasa,
                Severity::Warning,
                "min-assertions",
                "A non-trivial function has too few assertions.",
                "NASA JPL Rule 5: assertion density.",
                Vec::new(),
                Some(c_cpp()),
            ),
            RuleId::Nasa008 => make_rule(
                "NRP-NASA-008",
                RuleCategory::Nasa,
                Severity::Warning,
                "unchecked-return",
                "A non-void return value is discarded.",
                "NASA JPL Rule 7: check return values.",
                Vec::new(),
                Some(c_cpp()),
            ),
            RuleId::Nasa009 => make_rule(
                "NRP-NASA-009",
                RuleCategory::Nasa,
                Severity::Info,
                "macro-constant",
                "A #define declares a constant.",
                "NASA JPL Rule 8: limited preprocessor use.",
                Vec::new(),
                Some(c_cpp()),
            ),
            RuleId::Nasa010 => make_rule(
                "NRP-NASA-010",
                RuleCategory::Nasa,
                Severity::Warning,
                "function-like-macro",
                "A #define declares a function-like macro.",
                "NASA JPL Rule 8: limited preprocessor use.",
                Vec::new(),
                Some(c_cpp()),
            ),
            RuleId::Nasa011 => make_rule(
                "NRP-NASA-011",
                RuleCategory::Nasa,
                Severity::Warning,
                "broad-global",
                "A global variable has file-wide scope.",
                "NASA JPL Rule 6: smallest possible scope.",
                Vec::new(),
                Some(c_cpp()),
            ),
            RuleId::Nasa012 => make_rule(
                "NRP-NASA-012",
                RuleCategory::Nasa,
                Severity::Info,
                "const-local",
                "A local is never mutated but is not const.",
                "Immutability documents intent.",
                Vec::new(),
                Some(c_cpp()),
            ),
            RuleId::Crypto001 => make_rule(
                "NRP-CRYPTO-001",
                RuleCategory::Crypto,
                Severity::Warning,
                "memset-zeroization",
                "memset is used to wipe a crypto buffer.",
                "The compiler may remove a dead memset.",
                Vec::new(),
                Some(c_cpp()),
            ),
            RuleId::Crypto002 => make_rule(
                "NRP-CRYPTO-002",
                RuleCategory::Crypto,
                Severity::Error,
                "key-in-log",
                "Key material is passed to a log function.",
                "Logs must never carry secrets.",
                Vec::new(),
                Some(c_cpp()),
            ),
            RuleId::Crypto004 => make_rule(
                "NRP-CRYPTO-004",
                RuleCategory::Crypto,
                Severity::Error,
                "flash-buffer-to-cryptocell",
                "A const or flash buffer is passed to nrf_crypto.",
                "CryptoCell DMA needs RAM buffers.",
                Vec::new(),
                Some(c_cpp()),
            ),
            RuleId::Crypto005 => make_rule(
                "NRP-CRYPTO-005",
                RuleCategory::Crypto,
                Severity::Warning,
                "hardware-crypto-without-mutex",
                "Hardware crypto is called without a visible lock.",
                "Crypto peripherals are shared resources.",
                Vec::new(),
                Some(c_cpp()),
            ),
            RuleId::Crypto006 => make_rule(
                "NRP-CRYPTO-006",
                RuleCategory::Crypto,
                Severity::Error,
                "cc312-direct-register",
                "CC312 registers are accessed directly.",
                "CC312 belongs to the secure platform wrapper.",
                Vec::new(),
                Some(c_cpp()),
            ),
            RuleId::Crypto007 => make_rule(
                "NRP-CRYPTO-007",
                RuleCategory::Crypto,
                Severity::Error,
                "iv-reuse",
                "An IV or nonce is reused across encrypt calls.",
                "IV reuse breaks confidentiality.",
                Vec::new(),
                Some(c_cpp()),
            ),
            RuleId::Crypto008 => make_rule(
                "NRP-CRYPTO-008",
                RuleCategory::Crypto,
                Severity::Error,
                "crypto-in-isr",
                "Crypto is called inside an interrupt handler.",
                "ISRs must stay short and lock-free.",
                Vec::new(),
                Some(c_cpp()),
            ),
            RuleId::Crypto009 => make_rule(
                "NRP-CRYPTO-009",
                RuleCategory::Crypto,
                Severity::Warning,
                "raw-key-in-api",
                "A public API takes raw key bytes.",
                "Key handles keep secrets out of application memory.",
                Vec::new(),
                Some(c_cpp()),
            ),
            RuleId::Mem001 => make_rule(
                "NRP-MEM-001",
                RuleCategory::Memory,
                Severity::Warning,
                "array-bounds",
                "An array index has no visible bounds check.",
                "Unchecked indices corrupt memory.",
                Vec::new(),
                Some(c_cpp()),
            ),
            RuleId::Mem002 => make_rule(
                "NRP-MEM-002",
                RuleCategory::Memory,
                Severity::Error,
                "null-check",
                "A pointer parameter is dereferenced without a null check.",
                "Null dereferences crash firmware.",
                Vec::new(),
                Some(c_cpp()),
            ),
            RuleId::Mem003 => make_rule(
                "NRP-MEM-003",
                RuleCategory::Memory,
                Severity::Warning,
                "size-overflow",
                "Size arithmetic has no overflow guard.",
                "Wrapped sizes lead to short allocations.",
                Vec::new(),
                Some(c_cpp()),
            ),
            RuleId::Mem004 => make_rule(
                "NRP-MEM-004",
                RuleCategory::Memory,
                Severity::Warning,
                "size-narrowing",
                "A size is narrowed without a range check.",
                "Narrowing silently truncates lengths.",
                Vec::new(),
                Some(c_cpp()),
            ),
            RuleId::Style001 => make_rule(
                "NRP-STYLE-001",
                RuleCategory::Style,
                Severity::Warning,
                "banned-words",
                "Documentation uses a banned word or phrase.",
                "Plain technical language reads better.",
                Vec::new(),
                Some(c_cpp()),
            ),
            RuleId::Style002 => make_rule(
                "NRP-STYLE-002",
                RuleCategory::Style,
                Severity::Warning,
                "em-dash",
                "Documentation contains an em-dash.",
                "The documentation style forbids em dashes.",
                Vec::new(),
                Some(c_cpp()),
            ),
            RuleId::Style003 => make_rule(
                "NRP-STYLE-003",
                RuleCategory::Style,
                Severity::Warning,
                "generic-brief",
                "An @brief only names the kind of declaration.",
                "A brief should describe behavior.",
                Vec::new(),
                Some(c_cpp()),
            ),
            RuleId::Style004 => make_rule(
                "NRP-STYLE-004",
                RuleCategory::Style,
                Severity::Info,
                "crypto-hardware-backend",
                "Crypto documentation does not name its hardware backend.",
                "Readers need to know which accelerator is used.",
                Vec::new(),
                Some(c_cpp()),
            ),
    };
    proof {
        assert(r@.references =~= rule_view(id).references);
    }
    r
}

/// Every rule identifier, in catalog order.
pub fn all_rule_ids() -> (r: Vec<RuleId>)
    ensures
        r@ == all_ids(),
{
    let mut v = Vec::new();
    v.push(RuleId::Lic001);
    v.push(RuleId::Lic002);
    v.push(RuleId::Lic003);
    v.push(RuleId::Lic004);
    v.push(RuleId::Dox001);
    v.push(RuleId::Dox002);
    v.push(RuleId::Dox003);
    v.push(RuleId::Dox004);
    v.push(RuleId::Dox005);
    v.push(RuleId::Dox006);
    v.push(RuleId::Dox007);
    v.push(RuleId::Dox008);
    v.push(RuleId::Dox009);
    v.push(RuleId::Dox010);
    v.push(RuleId::Dox011);
    v.push(RuleId::Dox012);
    v.push(RuleId::Dox013);
    v.push(RuleId::Dox014);
    v.push(RuleId::Dox015);
    v.push(RuleId::Dox017);
    v.push(RuleId::Dox018);
    v.push(RuleId::Dox019);
    v.push(RuleId::Dox020);
    v.push(RuleId::Dox021);
    v.push(RuleId::Nasa001);
    v.push(RuleId::Nasa002);
    v.push(RuleId::Nasa003);
    v.push(RuleId::Nasa004);
    v.push(RuleId::Nasa005);
    v.push(RuleId::Nasa006);
    v.push(RuleId::Nasa007);
    v.push(RuleId::Nasa008);
    v.push(RuleId::Nasa009);
    v.push(RuleId::Nasa010);
    v.push(RuleId::Nasa011);
    v.push(RuleId::Nasa012);
    v.push(RuleId::Crypto001);
    v.push(RuleId::Crypto002);
    v.push(RuleId::Crypto004);
    v.push(RuleId::Crypto005);
    v.push(RuleId::Crypto006);
    v.push(RuleId::Crypto007);
    v.push(RuleId::Crypto008);
    v.push(RuleId::Crypto009);
    v.push(RuleId::Mem001);
    v.push(RuleId::Mem002);
    v.push(RuleId::Mem003);
    v.push(RuleId::Mem004);
    v.push(RuleId::Style001);
    v.push(RuleId::Style002);
    v.push(RuleId::Style003);
    v.push(RuleId::Style004);
    assert(v@ =~= all_ids());
    v
}

/// Looks a rule up by its textual identifier.
pub fn find_rule(id: &str) -> (r: Option<Rule>)
    ensures
        r matches Some(rule) ==> exists|rid: RuleId| rid.id_text() == id@ && rule@ == rule_view(rid),
        r is None <==> forall|rid: RuleId| rid.id_text() != id@,
{
    let ids = all_rule_ids();
    let wanted = id.to_owned();
    let mut i: usize = 0;
    while i < ids.len()
        invariant
            ids@ == all_ids(),
            wanted@ == id@,
            i <= ids@.len(),
            forall|k: int| 0 <= k < i ==> ids@[k].id_text() != id@,
        decreases ids@.len() - i,
    {
        let candidate = ids[i].as_str().to_owned();
        if candidate == wanted {
            return Some(rule(ids[i]));
        }
        i = i + 1;
    }
    proof {
        assert forall|rid: RuleId| rid.id_text() != id@ by {
            lemma_all_ids_complete(rid);
        }
    }
    None
}

} // verus!
