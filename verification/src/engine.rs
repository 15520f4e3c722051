use vstd::prelude::*;
use crate::convert::TreeJsonError;
use crate::convert::node_to_json;
use crate::json::json_of_node;
use crate::node::ParseNode;

verus! {

#[verifier::external_type_specification]
#[verifier::external_body]
pub struct ExTsLanguage(tree_sitter::Language);

#[verifier::external_type_specification]
#[verifier::external_body]
pub struct ExTsNode<'a>(tree_sitter::Node<'a>);

/// Relies on tree_sitter_java::LANGUAGE: the Java grammar.
#[verifier::external_body]
fn java_language() -> tree_sitter::Language {
    tree_sitter_java::LANGUAGE.into()
}

/// Relies on tree_sitter_python::LANGUAGE: the Python grammar.
#[verifier::external_body]
fn python_language() -> tree_sitter::Language {
    tree_sitter_python::LANGUAGE.into()
}

/// Relies on tree_sitter_rust::LANGUAGE: the Rust grammar.
#[verifier::external_body]
fn rust_language() -> tree_sitter::Language {
    tree_sitter_rust::LANGUAGE.into()
}

/// Relies on tree_sitter_sequel::LANGUAGE: the SQL grammar.
#[verifier::external_body]
fn sql_language() -> tree_sitter::Language {
    tree_sitter_sequel::LANGUAGE.into()
}

/// Relies on tree_sitter_bash::LANGUAGE: the Bash grammar.
#[verifier::external_body]
fn bash_language() -> tree_sitter::Language {
    tree_sitter_bash::LANGUAGE.into()
}

/// Relies on tree_sitter_javascript::LANGUAGE: the JavaScript grammar.
#[verifier::external_body]
fn js_language() -> tree_sitter::Language {
    tree_sitter_javascript::LANGUAGE.into()
}

/// Relies on tree_sitter_typescript::LANGUAGE_TYPESCRIPT: the TypeScript
/// grammar.
#[verifier::external_body]
fn ts_language() -> tree_sitter::Language {
    tree_sitter_typescript::LANGUAGE_TYPESCRIPT.into()
}

/// Relies on tree_sitter_typescript::LANGUAGE_TSX: the TSX grammar.
#[verifier::external_body]
fn tsx_language() -> tree_sitter::Language {
    tree_sitter_typescript::LANGUAGE_TSX.into()
}

/// Relies on tree_sitter_go::LANGUAGE: the Go grammar.
#[verifier::external_body]
fn go_language() -> tree_sitter::Language {
    tree_sitter_go::LANGUAGE.into()
}

/// Relies on tree_sitter_c::LANGUAGE: the C grammar.
#[verifier::external_body]
fn c_language() -> tree_sitter::Language {
    tree_sitter_c::LANGUAGE.into()
}

/// Relies on tree_sitter_lua::LANGUAGE: the Lua grammar.
#[verifier::external_body]
fn lua_language() -> tree_sitter::Language {
    tree_sitter_lua::LANGUAGE.into()
}

/// Relies on tree_sitter_html::LANGUAGE: the HTML grammar.
#[verifier::external_body]
fn html_language() -> tree_sitter::Language {
    tree_sitter_html::LANGUAGE.into()
}

/// The compiled grammar of `lang`: a one-to-one dispatch, with no default
/// and no composition.
fn grammar_for(lang: crate::lang::Lang) -> tree_sitter::Language {
    match lang {
        crate::lang::Lang::Java => java_language(),
        crate::lang::Lang::Python => python_language(),
        crate::lang::Lang::Rust => rust_language(),
        crate::lang::Lang::Sql => sql_language(),
        crate::lang::Lang::Bash => bash_language(),
        crate::lang::Lang::Js => js_language(),
        crate::lang::Lang::Ts => ts_language(),
        crate::lang::Lang::Tsx => tsx_language(),
        crate::lang::Lang::Go => go_language(),
        crate::lang::Lang::C => c_language(),
        crate::lang::Lang::Lua => lua_language(),
        crate::lang::Lang::Html => html_language(),
    }
}

/// The parse tree that the engine yields for `src` under the grammar of
/// `lang`: the outcome of one tree-sitter parse with no old tree, no
/// timeout and no cancellation, which is a function of grammar and source
/// alone; `None` where the engine yields no tree.
pub uninterp spec fn ts_tree(lang: crate::lang::Lang, src: Seq<u8>) -> Option<ParseNode>;

/// Relies on tree_sitter::Parser::new, Parser::set_language and
/// Parser::parse, run once on a fresh parser with no old tree, so that the
/// yield is `ts_tree(lang, src)`; the error keeps the stage apart: the
/// grammar did not attach, or the engine returned no tree.
#[verifier::external_body]
fn engine_parse(lang: crate::lang::Lang, src: &[u8]) -> (r: Result<ParseNode, TreeJsonError>)
    ensures
        (r is Ok) == (ts_tree(lang, src@) is Some),
        r matches Ok(n) ==> ts_tree(lang, src@) == Some(n),
        r matches Err(e) ==> e == TreeJsonError::EngineInit || e == TreeJsonError::NoParseTree,
{
    let mut parser = tree_sitter::Parser::new();
    if parser.set_language(&grammar_for(lang)).is_err() {
        return Err(TreeJsonError::EngineInit);
    }
    match parser.parse(src, None) {
        Some(t) => Ok(extract_node(t.root_node())),
        None => Err(TreeJsonError::NoParseTree),
    }
}

/// Relies on tree_sitter::Node: kind, start_position, end_position,
/// start_byte, end_byte, child_count and child, to copy one node and its
/// children, in the engine's left-to-right order, into the library's own
/// representation, one node for one node.
#[verifier::external_body]
fn extract_node<'a>(node: tree_sitter::Node<'a>) -> ParseNode {
    let (sp, ep) = (node.start_position(), node.end_position());
    let mut children: Vec<ParseNode> = Vec::new();
    let mut i: u32 = 0;
    while i < node.child_count() {
        children.push(extract_node(node.child(i).unwrap()));
        i += 1;
    }
    ParseNode {
        kind: node.kind().as_bytes().to_vec(),
        start_row: sp.row, start_col: sp.column, end_row: ep.row, end_col: ep.column,
        start_byte: node.start_byte(), end_byte: node.end_byte(), children,
    }
}

/// Parses `src` once with the grammar of `lang` and serializes the whole
/// parse tree as one compact JSON document: exactly the JSON of the tree
/// the engine yields, `ts_tree(lang, src)`. Succeeds exactly when the
/// engine yields a tree and its spans fit `src`; each failure names its
/// stage.
pub fn parse_to_json(lang: crate::lang::Lang, src: &[u8]) -> (r: Result<Vec<u8>, TreeJsonError>)
    ensures
        r matches Ok(out) ==> (ts_tree(lang, src@) matches Some(n) && n.wf(src@) && out@
            == json_of_node(n, src@)),
        (r is Ok) <==> (ts_tree(lang, src@) matches Some(n) && n.wf(src@)),
        r matches Err(e) ==> if ts_tree(lang, src@) is None {
            e == TreeJsonError::EngineInit || e == TreeJsonError::NoParseTree
        } else {
            e == TreeJsonError::InvalidSpans
        },
{
    match engine_parse(lang, src) {
        Err(e) => Err(e),
        Ok(root) => match node_to_json(&root, src) {
            Ok(out) => Ok(out),
            Err(e) => Err(e),
        },
    }
}

/// Parsing is reproducible: two runs on the same language and source are
/// pinned to the same tree `ts_tree(lang, src)`, hence to the same bytes.
pub proof fn lemma_parse_deterministic(
    lang: crate::lang::Lang,
    src: Seq<u8>,
    n1: ParseNode,
    n2: ParseNode,
)
    requires
        ts_tree(lang, src) == Some(n1),
        ts_tree(lang, src) == Some(n2),
    ensures
        json_of_node(n1, src) == json_of_node(n2, src),
{
}

} // verus!
