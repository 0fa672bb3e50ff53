//! A source-code indexing engine for TypeScript and Rust workspaces.
//!
//! The library models a parse tree as a plain recursive value ([`tree::SyntaxNode`])
//! and builds all of its query surfaces — skeleton outlines, fuzzy-ranked search,
//! import/export models, symbol lookup, reference listing and dependency edges —
//! as verified traversals over that model. Parsing itself, fuzzy scoring and
//! file-system probes are delegated to outside crates behind small trusted
//! wrappers; everything downstream of them is specified and proved.

pub mod classify;
pub mod graph;
pub mod imports;
pub mod locate;
pub mod model;
pub mod paths;
pub mod refs;
pub mod search;
pub mod sig;
pub mod skeleton;
pub mod text;
pub mod tree;
