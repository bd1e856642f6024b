use nirapod_audit_core::parser::{detect_language, parse_source, query_text, QueryText, count_function_items};
use nirapod_audit_core::SourceLanguage;

#[test]
fn detects_languages_from_extensions() {
    assert_eq!(detect_language("src/main.cpp"), Some(SourceLanguage::Cpp));
    assert_eq!(detect_language("src/lib.rs"), Some(SourceLanguage::Rust));
    assert_eq!(detect_language("README.md"), None);
}

#[test]
fn carries_over_function_query_text() {
    assert!(query_text(QueryText::Functions).contains("@fn_decl.name"));
}

#[test]
fn smoke_parse_c() {
    let src = "int main(void) {\n  return 0;\n}\n";
    let tree = parse_source(SourceLanguage::C, src).expect("parse");
    assert_eq!(tree.nodes[0].kind, b"translation_unit".to_vec());
    assert_eq!(tree.ends[0], tree.nodes.len());
    assert!(tree.nodes.len() > 5);
    assert_eq!(count_function_items(SourceLanguage::C, "int main(void);").unwrap(), 1);
}

#[test]
fn builds_line_span_from_raw_lines() {
    let lines = vec![String::from("int main(void);")];
    let span = nirapod_audit_core::diagnostic::line_span("main.h", 1, &lines);
    assert_eq!(span.start_col, 1);
    assert_eq!(span.end_col, 16);
}

#[test]
fn converts_parser_root_node_to_span() {
    let source = "int main(void) {\n  return 0;\n}\n";
    let tree = nirapod_audit_core::parser::parse_source(SourceLanguage::C, source).expect("failed to parse source");
    let lines = source.lines().map(str::to_owned).collect::<Vec<_>>();
    let span = nirapod_audit_core::diagnostic::node_to_span(&tree, 0, "main.c", &lines);

    assert_eq!(span.start_line, 1);
    assert_eq!(span.end_line, 4);
    assert!(span.snippet.contains("return 0;"));
}

#[test]
fn parser_can_still_be_constructed_for_span_tests() {
    let parser = nirapod_audit_core::parser::build_parser(SourceLanguage::Cpp).expect("failed to build parser");
    let _ = parser;
}

fn leaf(parent: Option<usize>, end_byte: usize) -> nirapod_audit_core::syntax::SyntaxNode {
    nirapod_audit_core::syntax::SyntaxNode {
        kind: b"translation_unit".to_vec(),
        named: true,
        field: None,
        start_byte: 0,
        end_byte,
        start_row: 0,
        start_col: 0,
        end_row: 0,
        end_col: end_byte,
        parent,
    }
}

#[test]
fn tree_check_accepts_well_formed_and_rejects_broken_trees() {
    let good = nirapod_audit_core::syntax::SyntaxTree { nodes: vec![leaf(None, 4), leaf(Some(0), 3)], ends: vec![2, 2] };
    assert!(nirapod_audit_core::parser::check_tree(&good, 4));
    assert!(!nirapod_audit_core::parser::check_tree(&good, 3));
    let rooted_twice = nirapod_audit_core::syntax::SyntaxTree { nodes: vec![leaf(Some(0), 4)], ends: vec![1] };
    assert!(!nirapod_audit_core::parser::check_tree(&rooted_twice, 4));
    let orphan = nirapod_audit_core::syntax::SyntaxTree { nodes: vec![leaf(None, 4), leaf(None, 3)], ends: vec![2, 2] };
    assert!(!nirapod_audit_core::parser::check_tree(&orphan, 4));
    let empty = nirapod_audit_core::syntax::SyntaxTree { nodes: Vec::new(), ends: Vec::new() };
    assert!(!nirapod_audit_core::parser::check_tree(&empty, 4));
}

#[test]
fn counts_declarations_and_definitions() {
    assert_eq!(count_function_items(SourceLanguage::C, "int main(void);").ok(), Some(1));
    assert_eq!(count_function_items(SourceLanguage::C, "int f(void);\nint g(void) { return 0; }\n").ok(), Some(2));
    assert!(count_function_items(SourceLanguage::Rust, "fn f() {}").is_err());
}

#[test]
fn parsers_exist_for_c_and_cpp_only() {
    assert!(nirapod_audit_core::parser::build_parser(SourceLanguage::C).is_ok());
    assert!(nirapod_audit_core::parser::build_parser(SourceLanguage::Cpp).is_ok());
    assert!(nirapod_audit_core::parser::build_parser(SourceLanguage::Rust).is_err());
    assert!(parse_source(SourceLanguage::C, "int main(void) { return 0; }").is_ok());
}

#[test]
fn parsed_tree_holds_tree_sitters_nodes() {
    let tree = parse_source(SourceLanguage::C, "int main(void) { return 0; }").expect("parse");
    assert_eq!(tree.nodes[0].kind, b"translation_unit".to_vec());
    assert!(tree.nodes[0].parent.is_none());
    assert_eq!(tree.ends[0], tree.nodes.len());
    assert!(tree.nodes.iter().any(|n| n.kind == b"function_definition".to_vec()));
    assert!(matches!(
        parse_source(SourceLanguage::Rust, "fn main() {}"),
        Err(nirapod_audit_core::parser::ParserError::UnsupportedLanguage(SourceLanguage::Rust))
    ));
}
