use tree_json::DocNode;
use tree_json::Lang;
use tree_json::ParseNode;
use tree_json::TreeJsonError;
use tree_json::check_wf;
use tree_json::doc_to_json;
use tree_json::language_from_str;
use tree_json::node_to_doc;
use tree_json::node_to_json;

fn node(
    kind: &str,
    start_row: usize,
    start_col: usize,
    end_row: usize,
    end_col: usize,
    start_byte: usize,
    end_byte: usize,
    children: Vec<ParseNode>,
) -> ParseNode {
    ParseNode {
        kind: kind.as_bytes().to_vec(),
        start_row,
        start_col,
        end_row,
        end_col,
        start_byte,
        end_byte,
        children,
    }
}

#[test]
fn leaf_exact_json() {
    let n = node("integer", 0, 0, 0, 1, 0, 1, Vec::new());
    let out = node_to_json(&n, b"1").unwrap();
    assert_eq!(
        String::from_utf8(out).unwrap(),
        "{\"end_position\":[0,1],\"start_position\":[0,0],\"text\":\"1\",\"type\":\"integer\"}"
    );
}

#[test]
fn nested_exact_json() {
    let left = node("a", 0, 0, 0, 1, 0, 1, Vec::new());
    let right = node("b", 0, 1, 0, 2, 1, 2, Vec::new());
    let root = node("pair", 0, 0, 0, 2, 0, 2, vec![left, right]);
    let out = node_to_json(&root, b"ab").unwrap();
    let expected = "{\"children\":[\
{\"end_position\":[0,1],\"start_position\":[0,0],\"text\":\"a\",\"type\":\"a\"},\
{\"end_position\":[0,2],\"start_position\":[0,1],\"text\":\"b\",\"type\":\"b\"}\
],\"end_position\":[0,2],\"start_position\":[0,0],\"text\":\"ab\",\"type\":\"pair\"}";
    assert_eq!(String::from_utf8(out).unwrap(), expected);
}

#[test]
fn leaf_has_no_children_field() {
    let n = node("word", 0, 0, 0, 3, 0, 3, Vec::new());
    let out = node_to_json(&n, b"abc").unwrap();
    let s = String::from_utf8(out).unwrap();
    assert!(!s.contains("children"));
}

#[test]
fn parent_has_children_field() {
    let c = node("w", 0, 0, 0, 1, 0, 1, Vec::new());
    let root = node("top", 0, 0, 0, 1, 0, 1, vec![c]);
    let out = node_to_json(&root, b"x").unwrap();
    let s = String::from_utf8(out).unwrap();
    assert!(s.starts_with("{\"children\":["));
}

#[test]
fn text_is_byte_slice_of_source() {
    let c = node("mid", 0, 2, 0, 5, 2, 5, Vec::new());
    let root = node("top", 0, 0, 0, 7, 0, 7, vec![c]);
    let doc = node_to_doc(&root, b"0123456");
    assert_eq!(doc.text, b"0123456".to_vec());
    let children = doc.children.as_ref().unwrap();
    assert_eq!(children[0].text, b"234".to_vec());
}

#[test]
fn escaping_matches_json_rules() {
    let src: &[u8] = b"\"\\\n\t\r\x08\x0c\x01\x1f";
    let n = node("s", 0, 0, 1, 0, 0, src.len(), Vec::new());
    let out = node_to_json(&n, src).unwrap();
    let s = String::from_utf8(out).unwrap();
    assert!(s.contains("\"text\":\"\\\"\\\\\\n\\t\\r\\b\\f\\u0001\\u001f\""));
}

#[test]
fn multibyte_text_passes_through() {
    let src = "caf\u{e9}".as_bytes();
    let n = node("word", 0, 0, 0, 4, 0, src.len(), Vec::new());
    let out = node_to_json(&n, src).unwrap();
    let s = String::from_utf8(out).unwrap();
    assert!(s.contains("\"text\":\"caf\u{e9}\""));
}

#[test]
fn large_positions_format_in_decimal() {
    let n = node("k", 123456, 0, 123456, 789, 0, 0, Vec::new());
    let out = node_to_json(&n, b"").unwrap();
    let s = String::from_utf8(out).unwrap();
    assert!(s.contains("\"end_position\":[123456,789]"));
    assert!(s.contains("\"start_position\":[123456,0]"));
}

#[test]
fn span_past_end_of_source_is_rejected() {
    let n = node("k", 0, 0, 0, 5, 0, 5, Vec::new());
    assert_eq!(node_to_json(&n, b"abc"), Err(TreeJsonError::InvalidSpans));
}

#[test]
fn reversed_byte_span_is_rejected() {
    let n = node("k", 0, 0, 0, 1, 2, 1, Vec::new());
    assert_eq!(node_to_json(&n, b"abc"), Err(TreeJsonError::InvalidSpans));
}

#[test]
fn reversed_positions_are_rejected() {
    let n = node("k", 1, 0, 0, 9, 0, 1, Vec::new());
    assert_eq!(node_to_json(&n, b"abc"), Err(TreeJsonError::InvalidSpans));
}

#[test]
fn bad_child_span_is_rejected() {
    let c = node("c", 0, 0, 0, 9, 0, 9, Vec::new());
    let root = node("top", 0, 0, 0, 3, 0, 3, vec![c]);
    assert_eq!(node_to_json(&root, b"abc"), Err(TreeJsonError::InvalidSpans));
}

#[test]
fn split_multibyte_character_is_rejected() {
    let src = "\u{e9}".as_bytes();
    assert_eq!(src.len(), 2);
    let n = node("k", 0, 0, 0, 1, 0, 1, Vec::new());
    assert_eq!(node_to_json(&n, src), Err(TreeJsonError::InvalidSpans));
}

#[test]
fn check_wf_accepts_and_rejects() {
    let good = node("k", 0, 0, 0, 3, 0, 3, Vec::new());
    let bad = node("k", 0, 0, 0, 3, 0, 9, Vec::new());
    assert!(check_wf(&good, b"abc"));
    assert!(!check_wf(&bad, b"abc"));
}

#[test]
fn conversion_is_deterministic() {
    let c = node("c", 0, 0, 0, 1, 0, 1, Vec::new());
    let root = node("top", 0, 0, 0, 2, 0, 2, vec![c]);
    let once = node_to_json(&root, b"ab").unwrap();
    let twice = node_to_json(&root, b"ab").unwrap();
    assert_eq!(once, twice);
}

#[test]
fn doc_with_empty_children_list_serializes() {
    let d = DocNode {
        kind: b"top".to_vec(),
        start_row: 0,
        start_col: 0,
        end_row: 0,
        end_col: 0,
        text: Vec::new(),
        children: Some(Vec::new()),
    };
    let out = doc_to_json(&d);
    assert_eq!(
        String::from_utf8(out).unwrap(),
        "{\"children\":[],\"end_position\":[0,0],\"start_position\":[0,0],\"text\":\"\",\"type\":\"top\"}"
    );
}

#[test]
fn known_identifiers_map_to_languages() {
    assert_eq!(language_from_str("java"), Some(Lang::Java));
    assert_eq!(language_from_str("python"), Some(Lang::Python));
    assert_eq!(language_from_str("rust"), Some(Lang::Rust));
    assert_eq!(language_from_str("sql"), Some(Lang::Sql));
    assert_eq!(language_from_str("bash"), Some(Lang::Bash));
    assert_eq!(language_from_str("js"), Some(Lang::Js));
    assert_eq!(language_from_str("ts"), Some(Lang::Ts));
    assert_eq!(language_from_str("tsx"), Some(Lang::Tsx));
    assert_eq!(language_from_str("go"), Some(Lang::Go));
    assert_eq!(language_from_str("c"), Some(Lang::C));
    assert_eq!(language_from_str("lua"), Some(Lang::Lua));
    assert_eq!(language_from_str("html"), Some(Lang::Html));
}

#[test]
fn unknown_identifiers_map_to_none() {
    assert_eq!(language_from_str("cobol"), None);
    assert_eq!(language_from_str("Java"), None);
    assert_eq!(language_from_str(""), None);
    assert_eq!(language_from_str("jav"), None);
}
