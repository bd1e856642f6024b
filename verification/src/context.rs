//! File and project context builders.
//!
//! Each source file is parsed once and handed to the passes through a
//! read-only [`FileContext`].

use vstd::prelude::*;
use vstd::string::StringSliceAdditionalSpecFns;

use crate::parser::{
    bytes_within, detect_language, language_of_path, parse_enabled, parse_source, parsed_wf,
    syntax_of, utf8_valid, ParserError,
};
use crate::paths::{extension, extension_of, file_name, file_name_of, normalize_slashes, slashes};
use crate::strs::utf8_str;
use crate::syntax::SyntaxTree;
use crate::text::{bytes_eq, contains, seq_contains, seq_lower, split_lines, split_lines_exec, to_lower, vv};
use crate::types::{AuditConfig, FileRole, PlatformHint, SourceLanguage};

verus! {

/// Shared state built once for an audit target.
#[derive(Debug)]
pub struct ProjectContext {
    /// Root directory of the audit target.
    pub root_dir: String,
    /// Discovered source files in stable order.
    pub all_files: Vec<String>,
    /// Active configuration.
    pub config: AuditConfig,
    /// Group names declared with `@defgroup` anywhere under the root.
    pub defined_groups: Vec<Vec<u8>>,
}

/// Builds a project context; no group definitions are recorded yet.
pub fn build_project_context(root_dir: &str, all_files: Vec<String>, config: AuditConfig) -> (r:
    ProjectContext)
    ensures
        r.root_dir@ == root_dir@,
        r.all_files == all_files,
        r.config == config,
        r.defined_groups@.len() == 0,
{
    ProjectContext { root_dir: root_dir.to_owned(), all_files, config, defined_groups: Vec::new() }
}

impl ProjectContext {
    /// Records the `@defgroup` names declared in one source file of the project.
    pub fn record_group_definitions(&mut self, raw: &str)
        ensures
            vv(final(self).defined_groups@) == vv(old(self).defined_groups@)
                + crate::ast_pass::group_tags(raw.spec_bytes(), "@defgroup".spec_bytes()),
            final(self).root_dir == old(self).root_dir,
            final(self).all_files == old(self).all_files,
            final(self).config == old(self).config,
    {
        let found = crate::ast_pass::collect_group_tags(raw.as_bytes(), "@defgroup".as_bytes());
        let mut i: usize = 0;
        let ghost start = vv(self.defined_groups@);
        while i < found.len()
            invariant
                vv(found@) == crate::ast_pass::group_tags(raw.spec_bytes(), "@defgroup".spec_bytes()),
                i <= found@.len(),
                vv(self.defined_groups@) =~= start + vv(found@).subrange(0, i as int),
                self.root_dir == old(self).root_dir,
                self.all_files == old(self).all_files,
                self.config == old(self).config,
            decreases found@.len() - i,
        {
            let g = crate::text::copy_range(found[i].as_slice(), 0, found[i].len());
            assert(g@ =~= found@[i as int]@);
            let ghost before = vv(self.defined_groups@);
            self.defined_groups.push(g);
            assert(vv(self.defined_groups@) =~= before.push(g@));
            assert(vv(found@).subrange(0, i + 1) =~= vv(found@).subrange(0, i as int).push(g@));
            i = i + 1;
        }
        assert(vv(found@).subrange(0, found@.len() as int) =~= vv(found@));
    }
}

/// Role of a file from its path: lower-cased file name, extension and
/// slash-normalised path.
pub open spec fn role_of(path: Seq<u8>) -> FileRole {
    let name = match file_name_of(path) {
        Some(n) => seq_lower(n),
        None => Seq::empty(),
    };
    let norm = seq_lower(slashes(path));
    let ext = match extension_of(path) {
        Some(e) => Some(seq_lower(e)),
        None => None,
    };
    if name == "module-doc.h".spec_bytes() {
        FileRole::ModuleDoc
    } else if seq_contains(norm, "third_party/".spec_bytes()) || seq_contains(
        norm,
        "third-party/".spec_bytes(),
    ) || seq_contains(norm, "vendor/".spec_bytes()) || seq_contains(
        norm,
        "nordic_sdk/".spec_bytes(),
    ) {
        FileRole::ThirdParty
    } else if name == "cmakelists.txt".spec_bytes() || ext == Some("cmake".spec_bytes()) {
        FileRole::Cmake
    } else if name == "kconfig".spec_bytes() || name == "doxyfile".spec_bytes() {
        FileRole::Config
    } else if ext == Some("s".spec_bytes()) || ext == Some("asm".spec_bytes()) {
        FileRole::Asm
    } else if seq_contains(name, "test".spec_bytes()) {
        FileRole::Test
    } else if ext == Some("h".spec_bytes()) || ext == Some("hpp".spec_bytes()) {
        FileRole::PublicHeader
    } else {
        FileRole::Implementation
    }
}

fn ext_is(ext: &Option<Vec<u8>>, lit: &[u8]) -> (r: bool)
    ensures
        r == (match ext {
            Some(e) => Some(e@),
            None => None::<Seq<u8>>,
        } == Some(lit@)),
{
    match ext {
        Some(e) => bytes_eq(e.as_slice(), lit),
        None => false,
    }
}

/// Detects a file role from its path.
pub fn detect_file_role(path: &str) -> (r: FileRole)
    ensures
        r == role_of(path.spec_bytes()),
{
    let bytes = path.as_bytes();
    let name: Vec<u8> = match file_name(bytes) {
        Some(n) => to_lower(n.as_slice()),
        None => Vec::new(),
    };
    let norm = to_lower(normalize_slashes(bytes).as_slice());
    let ext: Option<Vec<u8>> = match extension(bytes) {
        Some(e) => Some(to_lower(e.as_slice())),
        None => None,
    };
    proof {
        assert(name@ == match file_name_of(bytes@) {
            Some(n) => seq_lower(n),
            None => Seq::<u8>::empty(),
        });
    }
    let n = name.as_slice();
    if bytes_eq(n, "module-doc.h".as_bytes()) {
        FileRole::ModuleDoc
    } else if contains(norm.as_slice(), "third_party/".as_bytes()) || contains(
        norm.as_slice(),
        "third-party/".as_bytes(),
    ) || contains(norm.as_slice(), "vendor/".as_bytes()) || contains(
        norm.as_slice(),
        "nordic_sdk/".as_bytes(),
    ) {
        FileRole::ThirdParty
    } else if bytes_eq(n, "cmakelists.txt".as_bytes()) || ext_is(&ext, "cmake".as_bytes()) {
        FileRole::Cmake
    } else if bytes_eq(n, "kconfig".as_bytes()) || bytes_eq(n, "doxyfile".as_bytes()) {
        FileRole::Config
    } else if ext_is(&ext, "s".as_bytes()) || ext_is(&ext, "asm".as_bytes()) {
        FileRole::Asm
    } else if contains(n, "test".as_bytes()) {
        FileRole::Test
    } else if ext_is(&ext, "h".as_bytes()) || ext_is(&ext, "hpp".as_bytes()) {
        FileRole::PublicHeader
    } else {
        FileRole::Implementation
    }
}

/// Platform from source markers; a configured platform other than `Auto` wins.
pub open spec fn platform_of(raw: Seq<u8>, config_hint: PlatformHint) -> PlatformHint {
    if config_hint != PlatformHint::Auto {
        config_hint
    } else if seq_contains(raw, "nrf5340".spec_bytes()) || seq_contains(raw, "NRF5340".spec_bytes())
        || seq_contains(raw, "CC312".spec_bytes()) {
        PlatformHint::Nrf5340
    } else if seq_contains(raw, "nrf52840".spec_bytes()) || seq_contains(
        raw,
        "NRF52840".spec_bytes(),
    ) || seq_contains(raw, "CC310".spec_bytes()) {
        PlatformHint::Nrf52840
    } else if seq_contains(raw, "IDF_TARGET_ESP32".spec_bytes()) || seq_contains(
        raw,
        "esp_aes.h".spec_bytes(),
    ) {
        PlatformHint::Esp32
    } else {
        PlatformHint::Host
    }
}

/// Resolves a platform hint from source text and configuration.
pub fn resolve_platform_hint(raw: &str, config_hint: PlatformHint) -> (r: PlatformHint)
    ensures
        r == platform_of(raw.spec_bytes(), config_hint),
{
    if config_hint != PlatformHint::Auto {
        return config_hint;
    }
    let b = raw.as_bytes();
    if contains(b, "nrf5340".as_bytes()) || contains(b, "NRF5340".as_bytes()) || contains(
        b,
        "CC312".as_bytes(),
    ) {
        PlatformHint::Nrf5340
    } else if contains(b, "nrf52840".as_bytes()) || contains(b, "NRF52840".as_bytes()) || contains(
        b,
        "CC310".as_bytes(),
    ) {
        PlatformHint::Nrf52840
    } else if contains(b, "IDF_TARGET_ESP32".as_bytes()) || contains(b, "esp_aes.h".as_bytes()) {
        PlatformHint::Esp32
    } else {
        PlatformHint::Host
    }
}

/// Parsed context for one source file.
#[derive(Debug)]
pub struct FileContext {
    /// Source path as given.
    pub path: String,
    /// Raw source text.
    pub raw: String,
    /// UTF-8 bytes of the source.
    pub source: Vec<u8>,
    /// Source lines (`str::lines`).
    pub lines: Vec<String>,
    /// UTF-8 bytes of each line.
    pub line_bytes: Vec<Vec<u8>>,
    /// Syntax tree.
    pub tree: SyntaxTree,
    /// Structural role.
    pub role: FileRole,
    /// Resolved platform.
    pub platform: PlatformHint,
    /// Detected language.
    pub language: SourceLanguage,
    /// `true` for C++ sources and headers.
    pub is_cpp: bool,
    /// NASA rule 4 limit on counted function lines.
    pub max_function_lines: usize,
    /// NASA rule 5 minimum assertion count.
    pub min_assertions: usize,
    /// Group names declared with `@defgroup` in the project.
    pub defined_groups: Vec<Vec<u8>>,
}

impl FileContext {
    /// The byte views agree with the text and the tree lies within the source.
    pub open spec fn wf(&self) -> bool {
        &&& self.source@ == vstd::utf8::encode_utf8(self.raw@)
        &&& self.lines@.len() == self.line_bytes@.len()
        &&& forall|i: int|
            0 <= i < self.lines@.len() ==> #[trigger] self.line_bytes@[i]@
                == vstd::utf8::encode_utf8(self.lines@[i]@)
        &&& self.tree.wf()
        &&& bytes_within(self.tree@, self.source@.len() as int)
    }

    /// Byte views of the lines.
    pub open spec fn lb(&self) -> Seq<Seq<u8>> {
        vv(self.line_bytes@)
    }

    /// Text views of the lines.
    pub open spec fn ls(&self) -> Seq<Seq<char>> {
        crate::types::strings_view(self.lines@)
    }
}

/// Errors while building a [`FileContext`].
#[derive(Debug)]
pub enum ContextBuildError {
    /// The path does not map to a supported language.
    UnsupportedPath(String),
    /// Parsing failed.
    Parse(ParserError),
}

fn line_strings(lines: &Vec<Vec<u8>>) -> (r: (Vec<String>, Vec<Vec<u8>>))
    ensures
        r.0@.len() == lines@.len(),
        r.1@.len() == lines@.len(),
        forall|i: int|
            0 <= i < lines@.len() ==> #[trigger] r.1@[i]@ == vstd::utf8::encode_utf8(r.0@[i]@),
        forall|i: int|
            0 <= i < lines@.len() && vstd::utf8::valid_utf8(lines@[i]@) ==> #[trigger] r.0@[i]@
                == vstd::utf8::decode_utf8(lines@[i]@),
        forall|i: int|
            0 <= i < lines@.len() && !vstd::utf8::valid_utf8(lines@[i]@) ==> #[trigger] r.0@[i]@
                == Seq::<char>::empty(),
{
    let mut strs: Vec<String> = Vec::new();
    let mut bytes: Vec<Vec<u8>> = Vec::new();
    let mut i: usize = 0;
    while i < lines.len()
        invariant
            i <= lines@.len(),
            strs@.len() == i,
            bytes@.len() == i,
            forall|k: int|
                0 <= k < i ==> #[trigger] bytes@[k]@ == vstd::utf8::encode_utf8(strs@[k]@),
            forall|k: int|
                0 <= k < i && vstd::utf8::valid_utf8(lines@[k]@) ==> #[trigger] strs@[k]@
                    == vstd::utf8::decode_utf8(lines@[k]@),
            forall|k: int|
                0 <= k < i && !vstd::utf8::valid_utf8(lines@[k]@) ==> #[trigger] strs@[k]@
                    == Seq::<char>::empty(),
        decreases lines@.len() - i,
    {
        let l = lines[i].as_slice();
        let s: String = if utf8_valid(l) {
            utf8_str(l).to_owned()
        } else {
            String::new()
        };
        let b = vstd::slice::slice_to_vec(s.as_str().as_bytes());
        strs.push(s);
        bytes.push(b);
        i = i + 1;
    }
    (strs, bytes)
}

fn copy_groups(groups: &Vec<Vec<u8>>) -> (r: Vec<Vec<u8>>)
    ensures
        vv(r@) == vv(groups@),
{
    let mut out: Vec<Vec<u8>> = Vec::new();
    let mut i: usize = 0;
    while i < groups.len()
        invariant
            i <= groups@.len(),
            vv(out@) =~= vv(groups@).subrange(0, i as int),
        decreases groups@.len() - i,
    {
        let g = crate::text::copy_range(groups[i].as_slice(), 0, groups[i].len());
        assert(g@ =~= groups@[i as int]@);
        let ghost before = vv(out@);
        out.push(g);
        assert(vv(out@) =~= before.push(g@));
        assert(vv(groups@).subrange(0, i + 1) =~= vv(groups@).subrange(0, i as int).push(g@));
        i = i + 1;
    }
    assert(vv(groups@).subrange(0, groups@.len() as int) =~= vv(groups@));
    out
}

/// Builds the parsed context of one source file.
pub fn build_file_context(path: &str, raw: &str, project: &ProjectContext) -> (r: Result<
    FileContext,
    ContextBuildError,
>)
    ensures
        r matches Err(ContextBuildError::UnsupportedPath(p)) <==> language_of_path(path.spec_bytes()) is None,
        r matches Err(ContextBuildError::UnsupportedPath(p)) ==> p@ == path@,
        r is Ok <==> (language_of_path(path.spec_bytes()) matches Some(l) && parse_enabled(l)
            && parsed_wf(l, raw.spec_bytes())),
        r matches Err(ContextBuildError::Parse(e)) ==> language_of_path(path.spec_bytes()) matches Some(l)
            && ((e == ParserError::UnsupportedLanguage(l) && !parse_enabled(l)) || (e
            == ParserError::ParseFailed(l) && parse_enabled(l) && !parsed_wf(l, raw.spec_bytes()))),
        r matches Ok(ctx) ==> {
            &&& ctx.wf()
            &&& language_of_path(path.spec_bytes()) == Some(ctx.language)
            &&& ctx.tree@ == syntax_of(ctx.language, raw.spec_bytes())
            &&& parse_enabled(ctx.language)
            &&& ctx.path@ == path@
            &&& ctx.raw@ == raw@
            &&& ctx.role == role_of(path.spec_bytes())
            &&& ctx.platform == platform_of(raw.spec_bytes(), project.config.platform)
            &&& ctx.is_cpp == (ctx.language == SourceLanguage::Cpp)
            &&& ctx.max_function_lines == project.config.max_function_lines
            &&& ctx.min_assertions == project.config.min_assertions
            &&& vv(ctx.defined_groups@) == vv(project.defined_groups@)
            &&& ctx.lines@.len() == split_lines(raw.spec_bytes()).len()
            &&& forall|i: int|
                0 <= i < ctx.lines@.len() && vstd::utf8::valid_utf8(split_lines(raw.spec_bytes())[i])
                    ==> #[trigger] ctx.lines@[i]@ == vstd::utf8::decode_utf8(
                    split_lines(raw.spec_bytes())[i],
                )
            &&& forall|i: int|
                0 <= i < ctx.lines@.len() && !vstd::utf8::valid_utf8(split_lines(raw.spec_bytes())[i])
                    ==> #[trigger] ctx.lines@[i]@ == Seq::<char>::empty()
        },
{
    let language = match detect_language(path) {
        Some(l) => l,
        None => {
            return Err(ContextBuildError::UnsupportedPath(path.to_owned()));
        },
    };
    let tree = match parse_source(language, raw) {
        Ok(t) => t,
        Err(e) => {
            return Err(ContextBuildError::Parse(e));
        },
    };
    let source = vstd::slice::slice_to_vec(raw.as_bytes());
    let split = split_lines_exec(source.as_slice());
    let (lines, line_bytes) = line_strings(&split);
    let raw_owned = raw.to_owned();
    assert(raw_owned@ == raw@);
    Ok(
        FileContext {
            path: path.to_owned(),
            raw: raw_owned,
            source,
            lines,
            line_bytes,
            tree,
            role: detect_file_role(path),
            platform: resolve_platform_hint(raw, project.config.platform),
            language,
            is_cpp: language == SourceLanguage::Cpp,
            max_function_lines: project.config.max_function_lines,
            min_assertions: project.config.min_assertions,
            defined_groups: copy_groups(&project.defined_groups),
        },
    )
}

} // verus!
