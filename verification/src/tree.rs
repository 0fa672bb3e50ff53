//! The library's model of a parse tree: a plain recursive value carrying, for
//! every node, its grammar kind, its source text, its 0-based start position
//! and its children in source order. The tree-sitter parsers produce values of
//! this model through trusted wrappers; everything that walks the model is
//! verified.

use vstd::prelude::*;

verus! {

/// One node of a parse tree, in the library's own representation.
///
/// `kind` is the grammar's node-kind string, `text` the source slice the node
/// spans, `row` and `column` its 0-based start position, and `children` its
/// child nodes in source order.
#[derive(Debug, PartialEq)]
pub struct SyntaxNode {
    pub kind: String,
    pub text: String,
    pub row: usize,
    pub column: usize,
    pub children: Vec<SyntaxNode>,
}

/// The two source languages the engine parses.
#[derive(Clone, Copy, Debug, PartialEq, Eq, Structural)]
pub enum Lang {
    TypeScript,
    Rust,
}

/// The tree that the TypeScript grammar assigns to a source text, in the
/// library's model; `None` when parsing fails.
pub uninterp spec fn ts_tree_of(source: Seq<char>) -> Option<SyntaxNode>;

/// The tree that the Rust grammar assigns to a source text, in the library's
/// model; `None` when parsing fails.
pub uninterp spec fn rs_tree_of(source: Seq<char>) -> Option<SyntaxNode>;

/// The tree a source text parses to under the given language's grammar.
pub open spec fn tree_of(lang: Lang, source: Seq<char>) -> Option<SyntaxNode> {
    match lang {
        Lang::TypeScript => ts_tree_of(source),
        Lang::Rust => rs_tree_of(source),
    }
}

/// The 1-based line number reported for a node that starts at 0-based `row`,
/// saturating at the `u32` bound.
pub open spec fn line_of_row(row: nat) -> u32 {
    if row + 1 <= u32::MAX {
        (row + 1) as u32
    } else {
        u32::MAX
    }
}

/// Executable form of `line_of_row`.
pub fn line_from_row(row: usize) -> (r: u32)
    ensures
        r == line_of_row(row as nat),
{
    if row < u32::MAX as usize {
        (row as u32) + 1
    } else {
        u32::MAX
    }
}

/// Declares tree-sitter's `Node` type, so that the conversion below can take
/// one; values of it are opaque here.
#[verifier::external_type_specification]
#[verifier::external_body]
pub struct ExNode<'a>(tree_sitter::Node<'a>);

/// Converts a tree-sitter node and its subtree into the library's model.
///
/// Relies on tree-sitter's `Node` accessors: `kind` is the grammar kind
/// string, `start_byte`/`end_byte` span the node's source slice, and
/// `start_position` is its 0-based row and column.
#[verifier::external_body]
fn node_of(n: tree_sitter::Node, src: &str) -> SyntaxNode {
    let mut children = Vec::new();
    let mut cursor = n.walk();
    for ch in n.children(&mut cursor) {
        children.push(node_of(ch, src));
    }
    SyntaxNode {
        kind: n.kind().to_string(),
        text: src.get(n.start_byte()..n.end_byte()).unwrap_or("").to_string(),
        row: n.start_position().row,
        column: n.start_position().column,
        children,
    }
}

/// Parses a source text with the TypeScript grammar.
///
/// Relies on `tree_sitter::Parser::parse` with
/// `tree_sitter_typescript::LANGUAGE_TYPESCRIPT`: parsing is a deterministic
/// function of the source text alone, so its result is named `ts_tree_of`.
#[verifier::external_body]
fn parse_typescript(content: &str) -> (r: Option<SyntaxNode>)
    ensures
        r == ts_tree_of(content@),
{
    let mut parser = tree_sitter::Parser::new();
    let language: tree_sitter::Language = tree_sitter_typescript::LANGUAGE_TYPESCRIPT.into();
    if parser.set_language(&language).is_err() {
        return None;
    }
    match parser.parse(content, None) {
        Some(t) => Some(node_of(t.root_node(), content)),
        None => None,
    }
}

/// Parses a source text with the Rust grammar.
///
/// Relies on `tree_sitter::Parser::parse` with `tree_sitter_rust::LANGUAGE`:
/// parsing is a deterministic function of the source text alone, so its
/// result is named `rs_tree_of`.
#[verifier::external_body]
fn parse_rust(content: &str) -> (r: Option<SyntaxNode>)
    ensures
        r == rs_tree_of(content@),
{
    let mut parser = tree_sitter::Parser::new();
    let language: tree_sitter::Language = tree_sitter_rust::LANGUAGE.into();
    if parser.set_language(&language).is_err() {
        return None;
    }
    match parser.parse(content, None) {
        Some(t) => Some(node_of(t.root_node(), content)),
        None => None,
    }
}

/// Parses a source text under the given language tag.
pub fn parse_source(content: &str, lang: Lang) -> (r: Option<SyntaxNode>)
    ensures
        r == tree_of(lang, content@),
{
    match lang {
        Lang::TypeScript => parse_typescript(content),
        Lang::Rust => parse_rust(content),
    }
}

} // verus!
