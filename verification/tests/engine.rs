use tree_json::Lang;
use tree_json::language_from_str;
use tree_json::parse_to_json;

/// The serialization the parsing engine's own bindings suggest: the parse
/// tree rendered through serde_json's generic value tree and compact writer.
fn reference_json(node: &tree_sitter::Node, source: &str) -> serde_json::Value {
    let mut map = serde_json::Map::new();
    map.insert(
        "type".to_string(),
        serde_json::Value::String(node.kind().to_string()),
    );
    let sp = node.start_position();
    map.insert(
        "start_position".to_string(),
        serde_json::Value::Array(vec![
            serde_json::Value::from(sp.row as u64),
            serde_json::Value::from(sp.column as u64),
        ]),
    );
    let ep = node.end_position();
    map.insert(
        "end_position".to_string(),
        serde_json::Value::Array(vec![
            serde_json::Value::from(ep.row as u64),
            serde_json::Value::from(ep.column as u64),
        ]),
    );
    let text = &source[node.start_byte()..node.end_byte()];
    map.insert(
        "text".to_string(),
        serde_json::Value::String(text.to_string()),
    );
    if node.child_count() > 0 {
        let mut children = Vec::new();
        for i in 0..node.child_count() {
            children.push(reference_json(&node.child(i).unwrap(), source));
        }
        map.insert("children".to_string(), serde_json::Value::Array(children));
    }
    serde_json::Value::Object(map)
}

fn reference_output(language: &tree_sitter::Language, source: &str) -> String {
    let mut parser = tree_sitter::Parser::new();
    parser.set_language(language).unwrap();
    let tree = parser.parse(source, None).unwrap();
    reference_json(&tree.root_node(), source).to_string()
}

fn library_output(lang: Lang, source: &str) -> String {
    String::from_utf8(parse_to_json(lang, source.as_bytes()).unwrap()).unwrap()
}

#[test]
fn bare_digit_has_integer_leaf() {
    let out = library_output(Lang::Python, "1");
    let v: serde_json::Value = serde_json::from_str(&out).unwrap();
    assert_eq!(v["type"], serde_json::Value::String("module".to_string()));
    let mut cur = &v;
    while cur.get("children").is_some() {
        cur = &cur["children"][0];
    }
    assert_eq!(cur["text"], serde_json::Value::String("1".to_string()));
    assert_eq!(cur["type"], serde_json::Value::String("integer".to_string()));
}

#[test]
fn same_content_gives_byte_identical_output() {
    let from_file = library_output(Lang::Python, "x = 1\n");
    let from_stdin = library_output(Lang::Python, "x = 1\n");
    assert_eq!(from_file, from_stdin);
}

#[test]
fn unknown_language_identifier_is_refused() {
    assert_eq!(language_from_str("cobol"), None);
}

#[test]
fn empty_input_yields_single_node_without_children() {
    let out = library_output(Lang::Python, "");
    let v: serde_json::Value = serde_json::from_str(&out).unwrap();
    assert_eq!(v["text"], serde_json::Value::String(String::new()));
    assert!(v.get("children").is_none());
}

#[test]
fn matches_reference_serialization_java() {
    let source = "class A { int x = 1; }";
    let expected = reference_output(&tree_sitter_java::LANGUAGE.into(), source);
    assert_eq!(library_output(Lang::Java, source), expected);
}

#[test]
fn matches_reference_serialization_python_with_escapes() {
    let source = "s = \"a\\\"b\"\nprint(s)\n";
    let expected = reference_output(&tree_sitter_python::LANGUAGE.into(), source);
    assert_eq!(library_output(Lang::Python, source), expected);
}

#[test]
fn matches_reference_serialization_rust_multiline() {
    let source = "fn main() {\n    let s = \"caf\u{e9}\\n\";\n}\n";
    let expected = reference_output(&tree_sitter_rust::LANGUAGE.into(), source);
    assert_eq!(library_output(Lang::Rust, source), expected);
}

#[test]
fn every_language_parses_a_snippet() {
    let cases = vec![
        (Lang::Java, "class A {}"),
        (Lang::Python, "print(1)"),
        (Lang::Rust, "fn f() {}"),
        (Lang::Sql, "SELECT 1;"),
        (Lang::Bash, "echo hi"),
        (Lang::Js, "let x = 1;"),
        (Lang::Ts, "let x: number = 1;"),
        (Lang::Tsx, "let x = <a/>;"),
        (Lang::Go, "package main"),
        (Lang::C, "int x;"),
        (Lang::Lua, "x = 1"),
        (Lang::Html, "<p>hi</p>"),
    ];
    for (lang, source) in cases {
        let out = parse_to_json(lang, source.as_bytes()).unwrap();
        let v: serde_json::Value = serde_json::from_slice(&out).unwrap();
        assert!(v.get("type").is_some());
    }
}

#[test]
fn output_is_valid_json_with_error_nodes_kept() {
    let out = library_output(Lang::Python, "def f(:\n");
    let v: serde_json::Value = serde_json::from_str(&out).unwrap();
    assert_eq!(v["type"], serde_json::Value::String("module".to_string()));
}
