//! Language detection, tree-sitter parsing and the embedded queries.

use vstd::prelude::*;
use streaming_iterator::StreamingIterator;
use vstd::string::StringSliceAdditionalSpecFns;

use crate::paths::{extension, extension_of};
use crate::syntax::{node_wf, tree_wf, NodeView, SyntaxNode, SyntaxTree};
use crate::text::{bytes_eq, seq_lower, to_lower};
use crate::types::SourceLanguage;

verus! {

/// Whether `bytes` is valid UTF-8 (`std::str::from_utf8` succeeds exactly then).
#[verifier::external_body]
pub fn utf8_valid(bytes: &[u8]) -> (r: bool)
    ensures
        r == vstd::utf8::valid_utf8(bytes@),
{
    std::str::from_utf8(bytes).is_ok()
}

/// Language for a lower-case file extension.
pub open spec fn language_for_extension(ext: Seq<u8>) -> Option<SourceLanguage> {
    if ext == "c".spec_bytes() || ext == "h".spec_bytes() {
        Some(SourceLanguage::C)
    } else if ext == "cpp".spec_bytes() || ext == "cc".spec_bytes() || ext == "hpp".spec_bytes() {
        Some(SourceLanguage::Cpp)
    } else if ext == "rs".spec_bytes() {
        Some(SourceLanguage::Rust)
    } else if ext == "ts".spec_bytes() || ext == "tsx".spec_bytes() {
        Some(SourceLanguage::TypeScript)
    } else {
        None
    }
}

/// Language of a path, from its extension compared without regard to ASCII case.
pub open spec fn language_of_path(path: Seq<u8>) -> Option<SourceLanguage> {
    match extension_of(path) {
        Some(ext) => language_for_extension(seq_lower(ext)),
        None => None,
    }
}

proof fn lemma_extension_literals()
    ensures
        "c".spec_bytes().len() == 1 && "c".spec_bytes()[0] == 99u8,
        "h".spec_bytes().len() == 1 && "h".spec_bytes()[0] == 104u8,
        "cc".spec_bytes().len() == 2 && "cc".spec_bytes()[0] == 99u8,
        "rs".spec_bytes().len() == 2 && "rs".spec_bytes()[0] == 114u8,
        "ts".spec_bytes().len() == 2 && "ts".spec_bytes()[0] == 116u8,
        "cpp".spec_bytes().len() == 3 && "cpp".spec_bytes()[0] == 99u8,
        "hpp".spec_bytes().len() == 3 && "hpp".spec_bytes()[0] == 104u8,
        "tsx".spec_bytes().len() == 3 && "tsx".spec_bytes()[0] == 116u8,
{
    reveal_strlit("c");
    vstd::string::is_ascii_spec_bytes("c");
    assert(vstd::string::is_ascii("c"));
    reveal_strlit("h");
    vstd::string::is_ascii_spec_bytes("h");
    assert(vstd::string::is_ascii("h"));
    reveal_strlit("cc");
    vstd::string::is_ascii_spec_bytes("cc");
    assert(vstd::string::is_ascii("cc"));
    reveal_strlit("rs");
    vstd::string::is_ascii_spec_bytes("rs");
    assert(vstd::string::is_ascii("rs"));
    reveal_strlit("ts");
    vstd::string::is_ascii_spec_bytes("ts");
    assert(vstd::string::is_ascii("ts"));
    reveal_strlit("cpp");
    vstd::string::is_ascii_spec_bytes("cpp");
    assert(vstd::string::is_ascii("cpp"));
    reveal_strlit("hpp");
    vstd::string::is_ascii_spec_bytes("hpp");
    assert(vstd::string::is_ascii("hpp"));
    reveal_strlit("tsx");
    vstd::string::is_ascii_spec_bytes("tsx");
    assert(vstd::string::is_ascii("tsx"));
}

/// The extension decides the language, compared without regard to ASCII
/// case: `c` and `h` are C; `cpp`, `cc` and `hpp` are C++; `rs` is Rust;
/// `ts` and `tsx` are TypeScript; any other extension has no language.
pub proof fn lemma_extension_languages(path: Seq<u8>, ext: Seq<u8>)
    requires
        extension_of(path) == Some(ext),
    ensures
        seq_lower(ext) == "c".spec_bytes() || seq_lower(ext) == "h".spec_bytes() ==> language_of_path(path)
            == Some(SourceLanguage::C),
        seq_lower(ext) == "cpp".spec_bytes() || seq_lower(ext) == "cc".spec_bytes() || seq_lower(ext)
            == "hpp".spec_bytes() ==> language_of_path(path) == Some(SourceLanguage::Cpp),
        seq_lower(ext) == "rs".spec_bytes() ==> language_of_path(path) == Some(SourceLanguage::Rust),
        seq_lower(ext) == "ts".spec_bytes() || seq_lower(ext) == "tsx".spec_bytes() ==> language_of_path(
            path,
        ) == Some(SourceLanguage::TypeScript),
        !(seq_lower(ext) == "c".spec_bytes() || seq_lower(ext) == "h".spec_bytes() || seq_lower(ext)
            == "cpp".spec_bytes() || seq_lower(ext) == "cc".spec_bytes() || seq_lower(ext)
            == "hpp".spec_bytes() || seq_lower(ext) == "rs".spec_bytes() || seq_lower(ext)
            == "ts".spec_bytes() || seq_lower(ext) == "tsx".spec_bytes()) ==> language_of_path(path)
            is None,
        extension_of(path) is None ==> language_of_path(path) is None,
{
    lemma_extension_literals();
}

fn language_for_extension_exec(ext: &[u8]) -> (r: Option<SourceLanguage>)
    ensures
        r == language_for_extension(ext@),
{
    if bytes_eq(ext, "c".as_bytes()) || bytes_eq(ext, "h".as_bytes()) {
        Some(SourceLanguage::C)
    } else if bytes_eq(ext, "cpp".as_bytes()) || bytes_eq(ext, "cc".as_bytes()) || bytes_eq(
        ext,
        "hpp".as_bytes(),
    ) {
        Some(SourceLanguage::Cpp)
    } else if bytes_eq(ext, "rs".as_bytes()) {
        Some(SourceLanguage::Rust)
    } else if bytes_eq(ext, "ts".as_bytes()) || bytes_eq(ext, "tsx".as_bytes()) {
        Some(SourceLanguage::TypeScript)
    } else {
        None
    }
}

/// Detects the source language from a path's extension (`c`, `h`, `cpp`,
/// `cc`, `hpp`, `rs`, `ts`, `tsx`, in any ASCII case).
pub fn detect_language(path: &str) -> (r: Option<SourceLanguage>)
    ensures
        r == language_of_path(path.spec_bytes()),
{
    let bytes = path.as_bytes();
    match extension(bytes) {
        Some(ext) => {
            let lower = to_lower(ext.as_slice());
            language_for_extension_exec(lower.as_slice())
        },
        None => None,
    }
}

#[verifier::external_type_specification]
#[verifier::external_body]
pub struct ExTsParser(tree_sitter::Parser);

#[verifier::external_type_specification]
#[verifier::external_body]
pub struct ExTsTree(tree_sitter::Tree);

#[verifier::external_type_specification]
#[verifier::external_body]
pub struct ExTsLanguage(tree_sitter::Language);

#[verifier::external_type_specification]
#[verifier::external_body]
pub struct ExTsLanguageError(tree_sitter::LanguageError);

#[verifier::external_type_specification]
#[verifier::external_body]
pub struct ExTsQuery(tree_sitter::Query);

#[verifier::external_type_specification]
#[verifier::external_body]
pub struct ExTsQueryError(tree_sitter::QueryError);

/// `tree_sitter::Parser::new`: a parser with no language assigned.
#[verifier::external_body]
fn ts_parser_new() -> tree_sitter::Parser {
    tree_sitter::Parser::new()
}

/// A tree-sitter grammar together with the language it parses. Only
/// [`grammar_for`] makes one, from the grammars of `tree_sitter_c` and
/// `tree_sitter_cpp`.
pub struct Grammar {
    grammar: tree_sitter::Language,
    language: SourceLanguage,
}

impl Grammar {
    /// The language this grammar parses.
    pub closed spec fn language(&self) -> SourceLanguage {
        self.language
    }
}

/// A tree-sitter parser that has had the grammar of `language` assigned.
/// Only [`language_parser`] makes one, after `Parser::set_language`
/// succeeded.
pub struct LanguageParser {
    parser: tree_sitter::Parser,
    language: SourceLanguage,
}

impl LanguageParser {
    /// The language whose grammar is assigned.
    pub closed spec fn language(&self) -> SourceLanguage {
        self.language
    }
}

/// Whether `Query::new` compiles the query text `text` against the grammar
/// of `language`.
pub uninterp spec fn query_compiles(language: SourceLanguage, text: Seq<char>) -> bool;

/// The number of matches `QueryCursor::matches` yields for the query text
/// `text` over the root of the tree tree-sitter builds for `source` in the
/// grammar of `language`.
pub uninterp spec fn query_match_count(language: SourceLanguage, text: Seq<char>, source: Seq<u8>) -> usize;

/// The C grammar of `tree_sitter_c`.
#[verifier::external_body]
fn ts_grammar_c() -> tree_sitter::Language {
    tree_sitter_c::LANGUAGE.into()
}

/// The C++ grammar of `tree_sitter_cpp`.
#[verifier::external_body]
fn ts_grammar_cpp() -> tree_sitter::Language {
    tree_sitter_cpp::LANGUAGE.into()
}

/// `Parser::set_language` with one of this library's grammars. The contract
/// claims success: `set_language` fails only on a grammar that is not
/// parseable or whose ABI version lies outside the runtime's
/// `MIN_COMPATIBLE_LANGUAGE_VERSION..=LANGUAGE_VERSION` (13..=15 in
/// tree-sitter 0.27.1), and the two grammars a [`Grammar`] can hold are
/// generated native parsers of ABI 15 (`tree_sitter_c` 0.24.2) and 14
/// (`tree_sitter_cpp` 0.23.4).
#[verifier::external_body]
fn ts_set_language(
    parser: &mut tree_sitter::Parser,
    grammar: &Grammar,
) -> (r: Result<(), tree_sitter::LanguageError>)
    ensures
        r is Ok,
{
    parser.set_language(&grammar.grammar)
}

/// `Parser::parse` on UTF-8 bytes. Its documentation says it returns `None`
/// only when no language has been assigned; a [`LanguageParser`] has one, so
/// the contract claims a tree. What the tree holds is not described here.
#[verifier::external_body]
fn ts_parse(parser: &mut LanguageParser, source: &[u8]) -> (r: Option<tree_sitter::Tree>)
    ensures
        r is Some,
{
    parser.parser.parse(source, None)
}

/// A compiled tree-sitter query with the language and text it was compiled
/// from. Only [`compile_query`] makes one.
pub struct CompiledQuery {
    query: tree_sitter::Query,
    language: SourceLanguage,
    text: String,
}

impl CompiledQuery {
    /// The language whose grammar the query was compiled against.
    pub closed spec fn language(&self) -> SourceLanguage {
        self.language
    }

    /// The query's text.
    pub closed spec fn text(&self) -> Seq<char> {
        self.text@
    }
}

/// A tree-sitter tree with the language and source it was parsed from.
/// Only [`parse_tree`] makes one.
pub struct ParsedTree {
    tree: tree_sitter::Tree,
    language: SourceLanguage,
    source: Vec<u8>,
}

impl ParsedTree {
    /// The language the source was parsed as.
    pub closed spec fn language(&self) -> SourceLanguage {
        self.language
    }

    /// The parsed source bytes.
    pub closed spec fn source(&self) -> Seq<u8> {
        self.source@
    }
}

/// `Query::new` against one of this library's grammars. The contract claims
/// that it compiles exactly when [`query_compiles`] says so.
#[verifier::external_body]
fn ts_query_new(grammar: &Grammar, text: &str) -> (r: Result<tree_sitter::Query, tree_sitter::QueryError>)
    ensures
        r is Ok <==> query_compiles(grammar.language(), text@),
{
    tree_sitter::Query::new(&grammar.grammar, text)
}

/// A fresh `QueryCursor` running a compiled query over the root of a
/// parsed tree (`QueryCursor::matches`), its matches counted with
/// `StreamingIterator::count`. The contract claims the count is named by
/// [`query_match_count`], from the query's language and text and the tree's
/// source.
#[verifier::external_body]
fn ts_count_matches(query: &CompiledQuery, parsed: &ParsedTree) -> (r: usize)
    requires
        query.language() == parsed.language(),
    ensures
        r == query_match_count(query.language(), query.text(), parsed.source()),
{
    tree_sitter::QueryCursor::new().matches(&query.query, parsed.tree.root_node(), parsed.source.as_slice()).count()
}

/// The number of nodes, named and anonymous, of the tree tree-sitter builds
/// for `source` in the grammar of `language` (`Node::descendant_count` of
/// its root).
pub uninterp spec fn syntax_size(language: SourceLanguage, source: Seq<u8>) -> usize;

/// Node `i`, in pre-order (as `TreeCursor::goto_descendant` numbers them),
/// of the tree tree-sitter builds for `source` in the grammar of `language`:
/// its kind, whether it is named, its field name under its parent, its byte
/// range and points. Its `parent` is `None` and its `end` 0; those come from
/// [`syntax_parent`] and [`syntax_extent`].
pub uninterp spec fn syntax_node(language: SourceLanguage, source: Seq<u8>, i: usize) -> NodeView;

/// The pre-order index of the parent of node `i` of that tree; `None` for
/// the root.
pub uninterp spec fn syntax_parent(language: SourceLanguage, source: Seq<u8>, i: usize) -> Option<usize>;

/// The number of nodes in the subtree of node `i` of that tree, itself
/// included (`Node::descendant_count`).
pub uninterp spec fn syntax_extent(language: SourceLanguage, source: Seq<u8>, i: usize) -> usize;

/// `Node::descendant_count` of the root of a parsed tree: how many nodes it
/// has. The contract claims the count is named by [`syntax_size`].
#[verifier::external_body]
fn ts_node_count(parsed: &ParsedTree) -> (r: usize)
    ensures
        r == syntax_size(parsed.language(), parsed.source()),
{
    parsed.tree.root_node().descendant_count()
}

/// Node `i` of a parsed tree read into plain values: a `TreeCursor` moved to
/// descendant `i` (`goto_descendant`) gives the node and its `field_name`;
/// the node gives `kind`, `is_named`, `start_byte`, `end_byte`,
/// `start_position` and `end_position`. The contract claims the record is
/// named by [`syntax_node`].
#[verifier::external_body]
fn ts_node_at(parsed: &ParsedTree, i: usize) -> (r: SyntaxNode)
    requires
        i < syntax_size(parsed.language(), parsed.source()),
    ensures
        r.view_with_end(0) == syntax_node(parsed.language(), parsed.source(), i),
{
    let mut c = parsed.tree.walk();
    c.goto_descendant(i);
    let (n, field) = (c.node(), c.field_name().map(|f| f.as_bytes().to_vec()));
    let (s, e) = (n.start_position(), n.end_position());
    SyntaxNode { kind: n.kind().as_bytes().to_vec(), named: n.is_named(), field,
        start_byte: n.start_byte(), end_byte: n.end_byte(), start_row: s.row, start_col: s.column,
        end_row: e.row, end_col: e.column, parent: None }
}

/// The parent of node `i` of a parsed tree: a `TreeCursor` moved to
/// descendant `i`, then `goto_parent`, gives its `descendant_index`, or
/// nothing at the root. The contract claims it is named by
/// [`syntax_parent`].
#[verifier::external_body]
fn ts_node_parent(parsed: &ParsedTree, i: usize) -> (r: Option<usize>)
    requires
        i < syntax_size(parsed.language(), parsed.source()),
    ensures
        r == syntax_parent(parsed.language(), parsed.source(), i),
{
    let mut c = parsed.tree.walk();
    c.goto_descendant(i);
    if c.goto_parent() { Some(c.descendant_index()) } else { None }
}

/// `Node::descendant_count` of node `i` of a parsed tree, reached by a
/// `TreeCursor` moved to descendant `i`. The contract claims it is named by
/// [`syntax_extent`].
#[verifier::external_body]
fn ts_node_extent(parsed: &ParsedTree, i: usize) -> (r: usize)
    requires
        i < syntax_size(parsed.language(), parsed.source()),
    ensures
        r == syntax_extent(parsed.language(), parsed.source(), i),
{
    let mut c = parsed.tree.walk();
    c.goto_descendant(i);
    c.node().descendant_count()
}

/// The syntax tree tree-sitter builds for `source` in the grammar of
/// `language`, in pre-order, each node's `end` just past its subtree (0 when
/// that would not fit in a `usize`).
pub open spec fn syntax_of(language: SourceLanguage, source: Seq<u8>) -> Seq<NodeView> {
    Seq::new(
        syntax_size(language, source) as nat,
        |i: int| subtree_ended(language, source, i as usize),
    )
}

/// Node `i` of [`syntax_of`] with its subtree end.
pub open spec fn subtree_ended(language: SourceLanguage, source: Seq<u8>, i: usize) -> NodeView {
    let e = i + syntax_extent(language, source, i);
    NodeView {
        end: if e <= usize::MAX { e as usize } else { 0 },
        parent: syntax_parent(language, source, i),
        ..syntax_node(language, source, i)
    }
}

/// Errors of parser setup and parsing.
#[derive(Debug)]
pub enum ParserError {
    /// The language is detected but has no grammar here.
    UnsupportedLanguage(SourceLanguage),
    /// tree-sitter rejected the grammar.
    Language(tree_sitter::LanguageError),
    /// tree-sitter rejected a query.
    Query(tree_sitter::QueryError),
    /// tree-sitter produced no usable syntax tree.
    ParseFailed(SourceLanguage),
}

/// Languages with a grammar.
pub open spec fn parse_enabled(language: SourceLanguage) -> bool {
    language == SourceLanguage::C || language == SourceLanguage::Cpp
}

/// The grammar of a language that has one.
fn grammar_for(language: SourceLanguage) -> (r: Option<Grammar>)
    ensures
        r is Some <==> parse_enabled(language),
        r matches Some(g) ==> g.language() == language,
{
    match language {
        SourceLanguage::C => Some(Grammar { grammar: ts_grammar_c(), language }),
        SourceLanguage::Cpp => Some(Grammar { grammar: ts_grammar_cpp(), language }),
        SourceLanguage::Rust | SourceLanguage::TypeScript => None,
    }
}

/// A parser with the grammar of `language` assigned; `None` for a language
/// without a grammar.
fn language_parser(language: SourceLanguage) -> (r: Option<LanguageParser>)
    ensures
        r is Some <==> parse_enabled(language),
        r matches Some(p) ==> p.language() == language,
{
    let grammar = match grammar_for(language) {
        Some(g) => g,
        None => {
            return None;
        },
    };
    let mut parser = ts_parser_new();
    match ts_set_language(&mut parser, &grammar) {
        Ok(()) => Some(LanguageParser { parser, language }),
        Err(_) => None,
    }
}

/// Builds a tree-sitter parser for C or C++, with that language's grammar
/// assigned; other languages have no grammar.
pub fn build_parser(language: SourceLanguage) -> (r: Result<LanguageParser, ParserError>)
    ensures
        r is Ok <==> parse_enabled(language),
        r matches Ok(p) ==> p.language() == language,
        r matches Err(e) ==> e == ParserError::UnsupportedLanguage(language),
{
    match language_parser(language) {
        Some(p) => Ok(p),
        None => Err(ParserError::UnsupportedLanguage(language)),
    }
}

/// Parses source bytes with the grammar of a language that has one.
fn parse_tree(language: SourceLanguage, source: &[u8]) -> (r: Option<ParsedTree>)
    ensures
        r is Some <==> parse_enabled(language),
        r matches Some(t) ==> t.language() == language && t.source() == source@,
{
    let mut parser = match language_parser(language) {
        Some(p) => p,
        None => {
            return None;
        },
    };
    match ts_parse(&mut parser, source) {
        Some(tree) => Some(ParsedTree { tree, language, source: vstd::slice::slice_to_vec(source) }),
        None => None,
    }
}

/// Compiles a query text against the grammar of a language that has one.
fn compile_query(language: SourceLanguage, text: &str) -> (r: Option<Result<CompiledQuery, tree_sitter::QueryError>>)
    ensures
        r is Some <==> parse_enabled(language),
        r matches Some(Ok(q)) ==> q.language() == language && q.text() == text@,
        r matches Some(res) ==> (res is Ok <==> query_compiles(language, text@)),
{
    let grammar = match grammar_for(language) {
        Some(g) => g,
        None => {
            return None;
        },
    };
    match ts_query_new(&grammar, text) {
        Ok(query) => Some(Ok(CompiledQuery { query, language, text: text.to_owned() })),
        Err(e) => Some(Err(e)),
    }
}

/// Node `i` ends within a source of `src_len` bytes.
pub open spec fn bytes_within(t: Seq<NodeView>, src_len: int) -> bool {
    forall|i: int| 0 <= i < t.len() ==> #[trigger] t[i].end_byte <= src_len
}

/// Checks the pre-order structure and byte ranges of a built tree.
pub fn check_tree(t: &SyntaxTree, src_len: usize) -> (r: bool)
    ensures
        r == (t.wf() && bytes_within(t@, src_len as int)),
{
    let n = t.nodes.len();
    if n == 0 || t.ends.len() != n || t.ends[0] != n || t.nodes[0].parent.is_some() {
        proof {
            if n > 0 && t.ends@.len() == n {
                assert(t@[0].end == t.ends@[0] && t@[0].parent == t.nodes@[0].parent);
            }
        }
        return false;
    }
    let mut i: usize = 0;
    while i < n
        invariant
            n == t.nodes@.len(),
            n == t.ends@.len(),
            n >= 1,
            t@[0].end == n,
            t@[0].parent is None,
            i <= n,
            forall|k: int| 0 <= k < i ==> node_wf(t@, k),
            forall|k: int| 0 <= k < i ==> #[trigger] t@[k].end_byte <= src_len,
        decreases n - i,
    {
        let nd = &t.nodes[i];
        let e = t.ends[i];
        assert(t@[i as int].end == e && t@[i as int].parent == nd.parent);
        assert(t@[i as int].end_byte == nd.end_byte && t@[i as int].start_byte == nd.start_byte);
        assert(t@[i as int].start_row == nd.start_row && t@[i as int].end_row == nd.end_row);
        if !(i < e && e <= n && nd.start_byte <= nd.end_byte && nd.end_byte <= src_len
            && nd.start_row <= nd.end_row) {
            assert(!node_wf(t@, i as int) || t@[i as int].end_byte > src_len);
            return false;
        }
        if i > 0 {
            match nd.parent {
                Some(p) => {
                    if !(p < i && i < t.ends[p] && e <= t.ends[p]) {
                        proof {
                            if p < i {
                                assert(t@[p as int].end == t.ends@[p as int]);
                            }
                        }
                        assert(!node_wf(t@, i as int));
                        return false;
                    }
                },
                None => {
                    assert(!node_wf(t@, i as int));
                    return false;
                },
            }
        }
        assert(node_wf(t@, i as int));
        i = i + 1;
    }
    true
}

/// Reads every node of a parsed tree, in pre-order.
fn read_tree(parsed: &ParsedTree) -> (r: SyntaxTree)
    ensures
        r.nodes@.len() == r.ends@.len(),
        r@ == syntax_of(parsed.language(), parsed.source()),
{
    let ghost l = parsed.language();
    let ghost src = parsed.source();
    let n = ts_node_count(parsed);
    let mut nodes: Vec<SyntaxNode> = Vec::new();
    let mut ends: Vec<usize> = Vec::new();
    let mut i: usize = 0;
    while i < n
        invariant
            n == syntax_size(l, src),
            l == parsed.language(),
            src == parsed.source(),
            i <= n,
            nodes@.len() == i,
            ends@.len() == i,
            forall|k: int| 0 <= k < i ==> #[trigger] nodes@[k].view_with_end(ends@[k]) == subtree_ended(
                l,
                src,
                k as usize,
            ),
        decreases n - i,
    {
        let mut record = ts_node_at(parsed, i);
        record.parent = ts_node_parent(parsed, i);
        let extent = ts_node_extent(parsed, i);
        let end = match i.checked_add(extent) {
            Some(e) => e,
            None => 0,
        };
        assert(record.view_with_end(end) == subtree_ended(l, src, i));
        nodes.push(record);
        ends.push(end);
        i = i + 1;
    }
    let t = SyntaxTree { nodes, ends };
    assert(t@ =~= syntax_of(l, src));
    t
}

/// Parses C or C++ source into a syntax tree: tree-sitter's tree for the
/// source, refused only when its nodes do not form a well-formed pre-order
/// tree within the source. Other languages have no grammar.
pub fn parse_source(language: SourceLanguage, source: &str) -> (r: Result<SyntaxTree, ParserError>)
    ensures
        !parse_enabled(language) ==> r == Err::<SyntaxTree, ParserError>(
            ParserError::UnsupportedLanguage(language),
        ),
        parse_enabled(language) ==> (r is Ok <==> parsed_wf(language, source.spec_bytes())),
        parse_enabled(language) && r is Err ==> r == Err::<SyntaxTree, ParserError>(
            ParserError::ParseFailed(language),
        ),
        r matches Ok(t) ==> t.wf() && t@ == syntax_of(language, source.spec_bytes()),
        r matches Ok(t) ==> bytes_within(t@, source.spec_bytes().len() as int),
{
    let bytes = source.as_bytes();
    let parsed = match parse_tree(language, bytes) {
        Some(p) => p,
        None => {
            return Err(ParserError::UnsupportedLanguage(language));
        },
    };
    let t = read_tree(&parsed);
    if check_tree(&t, bytes.len()) {
        Ok(t)
    } else {
        Err(ParserError::ParseFailed(language))
    }
}

/// tree-sitter's tree for `source` is a well-formed pre-order tree whose
/// nodes lie within the source.
pub open spec fn parsed_wf(language: SourceLanguage, source: Seq<u8>) -> bool {
    tree_wf(syntax_of(language, source)) && bytes_within(syntax_of(language, source), source.len() as int)
}

/// Embedded tree-sitter queries.
#[derive(Clone, Copy, Debug, PartialEq, Eq, Structural)]
pub enum QueryText {
    /// Function definitions and declarations.
    Functions,
    /// Class declarations.
    Classes,
    /// Struct declarations.
    Structs,
    /// Enum declarations.
    Enums,
    /// Loop statements.
    Loops,
    /// Macro definitions.
    Macros,
    /// Function call expressions.
    Calls,
}

impl QueryText {
    pub open spec fn source(self) -> Seq<char> {
        match self {
            QueryText::Functions => r#"
(function_definition
  declarator: (function_declarator
    declarator: (identifier) @fn.name)
  body: (compound_statement) @fn.body) @fn.decl

(declaration
  declarator: (function_declarator
    declarator: (identifier) @fn_decl.name
    parameters: (parameter_list) @fn_decl.params)) @fn_decl.decl
"#@,
            QueryText::Classes => r#"
(class_specifier
  name: (type_identifier) @class.name
  body: (field_declaration_list) @class.body) @class.decl
"#@,
            QueryText::Structs => r#"
(struct_specifier
  name: (type_identifier) @struct.name
  body: (field_declaration_list) @struct.body) @struct.decl
"#@,
            QueryText::Enums => r#"
(enum_specifier
  name: (type_identifier) @enum.name
  body: (enumerator_list) @enum.body) @enum.decl
"#@,
            QueryText::Loops => r#"
(for_statement) @loop.for
(while_statement) @loop.while
(do_statement) @loop.do
"#@,
            QueryText::Macros => r#"
(preproc_def
  name: (identifier) @macro.name) @macro.def
(preproc_function_def
  name: (identifier) @macro.name) @macro.fn
"#@,
            QueryText::Calls => r#"
(call_expression
  function: (identifier) @call.name
  arguments: (argument_list) @call.args) @call.expr
"#@,
        }
    }
}

/// Text of an embedded query.
pub fn query_text(query: QueryText) -> (r: &'static str)
    ensures
        r@ == query.source(),
{
    match query {
            QueryText::Functions => r#"
(function_definition
  declarator: (function_declarator
    declarator: (identifier) @fn.name)
  body: (compound_statement) @fn.body) @fn.decl

(declaration
  declarator: (function_declarator
    declarator: (identifier) @fn_decl.name
    parameters: (parameter_list) @fn_decl.params)) @fn_decl.decl
"#,
            QueryText::Classes => r#"
(class_specifier
  name: (type_identifier) @class.name
  body: (field_declaration_list) @class.body) @class.decl
"#,
            QueryText::Structs => r#"
(struct_specifier
  name: (type_identifier) @struct.name
  body: (field_declaration_list) @struct.body) @struct.decl
"#,
            QueryText::Enums => r#"
(enum_specifier
  name: (type_identifier) @enum.name
  body: (enumerator_list) @enum.body) @enum.decl
"#,
            QueryText::Loops => r#"
(for_statement) @loop.for
(while_statement) @loop.while
(do_statement) @loop.do
"#,
            QueryText::Macros => r#"
(preproc_def
  name: (identifier) @macro.name) @macro.def
(preproc_function_def
  name: (identifier) @macro.name) @macro.fn
"#,
            QueryText::Calls => r#"
(call_expression
  function: (identifier) @call.name
  arguments: (argument_list) @call.args) @call.expr
"#,
    }
}

/// The function query used for a language: the C pattern for C, the
/// embedded function query for C++, and nothing for other languages.
pub open spec fn function_query(language: SourceLanguage) -> Seq<char> {
    match language {
        SourceLanguage::C => r#"
(function_definition
  declarator: (function_declarator
    declarator: (identifier) @fn.name)
  body: (compound_statement) @fn.body) @fn.decl

(declaration
  declarator: (function_declarator
    declarator: (identifier) @fn_decl.name
    parameters: (parameter_list) @fn_decl.params)) @fn_decl.decl
"#@,
        SourceLanguage::Cpp => QueryText::Functions.source(),
        SourceLanguage::Rust | SourceLanguage::TypeScript => ""@,
    }
}

/// Function query source for a language.
pub fn function_query_source(language: SourceLanguage) -> (r: &'static str)
    ensures
        r@ == function_query(language),
{
    match language {
        SourceLanguage::C => r#"
(function_definition
  declarator: (function_declarator
    declarator: (identifier) @fn.name)
  body: (compound_statement) @fn.body) @fn.decl

(declaration
  declarator: (function_declarator
    declarator: (identifier) @fn_decl.name
    parameters: (parameter_list) @fn_decl.params)) @fn_decl.decl
"#,
        SourceLanguage::Cpp => query_text(QueryText::Functions),
        SourceLanguage::Rust | SourceLanguage::TypeScript => "",
    }
}

/// Counts the matches of the function query over the parsed source:
/// definitions and declarations both count.
pub fn count_function_items(language: SourceLanguage, source: &str) -> (r: Result<usize, ParserError>)
    ensures
        !parse_enabled(language) <==> r matches Err(ParserError::UnsupportedLanguage(_)),
        r matches Err(ParserError::UnsupportedLanguage(l)) ==> l == language,
        parse_enabled(language) ==> (r is Ok <==> query_compiles(language, function_query(language))),
        r matches Err(e) ==> e is UnsupportedLanguage || e is Query,
        r matches Ok(n) ==> n == query_match_count(
            language,
            function_query(language),
            source.spec_bytes(),
        ),
{
    let bytes = source.as_bytes();
    let parsed = match parse_tree(language, bytes) {
        Some(p) => p,
        None => {
            return Err(ParserError::UnsupportedLanguage(language));
        },
    };
    let query = match compile_query(language, function_query_source(language)) {
        Some(Ok(q)) => q,
        Some(Err(e)) => {
            return Err(ParserError::Query(e));
        },
        None => {
            return Err(ParserError::UnsupportedLanguage(language));
        },
    };
    Ok(ts_count_matches(&query, &parsed))
}

} // verus!
