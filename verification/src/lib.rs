//! Converts parse trees into nested JSON documents.
//!
//! A parse tree, obtained from the tree-sitter engine for one of a fixed set
//! of languages, is mirrored node for node into a document tree that keeps
//! each node's kind, row/column span, byte span, raw source text and child
//! order, and the document tree is serialized as one compact JSON value.

pub mod convert;
pub mod doc;
pub mod engine;
pub mod json;
pub mod lang;
pub mod node;

pub use convert::TreeJsonError;
pub use convert::node_to_json;
pub use doc::DocNode;
pub use doc::node_to_doc;
pub use engine::parse_to_json;
pub use json::doc_to_json;
pub use lang::Lang;
pub use lang::language_from_str;
pub use node::ParseNode;
pub use node::check_wf;
