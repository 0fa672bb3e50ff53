//! The result types of the query surfaces, and their spec-level views.
//!
//! Each result struct carries strings and plain scalars; its view replaces
//! every `String` by its `Seq<char>` view so that contracts can equate whole
//! results with spec-computed values.

use vstd::prelude::*;

verus! {

/// One fuzzy-search hit: a declaration signature with its score.
#[derive(Debug, PartialEq)]
pub struct SearchResult {
    pub file: String,
    pub line: u32,
    pub match_content: String,
    pub score: i64,
}

pub ghost struct SearchResultView {
    pub file: Seq<char>,
    pub line: u32,
    pub match_content: Seq<char>,
    pub score: i64,
}

impl View for SearchResult {
    type V = SearchResultView;

    open spec fn view(&self) -> SearchResultView {
        SearchResultView {
            file: self.file@,
            line: self.line,
            match_content: self.match_content@,
            score: self.score,
        }
    }
}

/// A named declaration: name, exposed kind, one-line signature, 1-based line
/// and file path.
#[derive(Debug, PartialEq)]
pub struct SymbolInfo {
    pub name: String,
    pub kind: String,
    pub signature: String,
    pub line: u32,
    pub file: String,
}

pub ghost struct SymbolInfoView {
    pub name: Seq<char>,
    pub kind: Seq<char>,
    pub signature: Seq<char>,
    pub line: u32,
    pub file: Seq<char>,
}

impl View for SymbolInfo {
    type V = SymbolInfoView;

    open spec fn view(&self) -> SymbolInfoView {
        SymbolInfoView {
            name: self.name@,
            kind: self.kind@,
            signature: self.signature@,
            line: self.line,
            file: self.file@,
        }
    }
}

/// One import statement: module specifier, imported local names in source
/// order, and the default/namespace flags.
#[derive(Debug, PartialEq)]
pub struct ImportInfo {
    pub source: String,
    pub symbols: Vec<String>,
    pub is_default: bool,
    pub is_namespace: bool,
}

pub ghost struct ImportInfoView {
    pub source: Seq<char>,
    pub symbols: Seq<Seq<char>>,
    pub is_default: bool,
    pub is_namespace: bool,
}

impl View for ImportInfo {
    type V = ImportInfoView;

    open spec fn view(&self) -> ImportInfoView {
        ImportInfoView {
            source: self.source@,
            symbols: self.symbols.deep_view(),
            is_default: self.is_default,
            is_namespace: self.is_namespace,
        }
    }
}

/// One exported declaration: name, exposed kind, and the default flag.
#[derive(Debug, PartialEq)]
pub struct ExportInfo {
    pub name: String,
    pub kind: String,
    pub is_default: bool,
}

pub ghost struct ExportInfoView {
    pub name: Seq<char>,
    pub kind: Seq<char>,
    pub is_default: bool,
}

impl View for ExportInfo {
    type V = ExportInfoView;

    open spec fn view(&self) -> ExportInfoView {
        ExportInfoView { name: self.name@, kind: self.kind@, is_default: self.is_default }
    }
}

/// The import/export model of one file.
#[derive(Debug, PartialEq)]
pub struct ImportsExports {
    pub imports: Vec<ImportInfo>,
    pub exports: Vec<ExportInfo>,
}

pub ghost struct ImportsExportsView {
    pub imports: Seq<ImportInfoView>,
    pub exports: Seq<ExportInfoView>,
}

impl View for ImportsExports {
    type V = ImportsExportsView;

    open spec fn view(&self) -> ImportsExportsView {
        ImportsExportsView {
            imports: self.imports@.map_values(|i: ImportInfo| i@),
            exports: self.exports@.map_values(|e: ExportInfo| e@),
        }
    }
}

/// A dependency-graph node: a file and its exported names.
#[derive(Debug, PartialEq)]
pub struct DependencyNode {
    pub file: String,
    pub exports: Vec<String>,
}

pub ghost struct DependencyNodeView {
    pub file: Seq<char>,
    pub exports: Seq<Seq<char>>,
}

impl View for DependencyNode {
    type V = DependencyNodeView;

    open spec fn view(&self) -> DependencyNodeView {
        DependencyNodeView { file: self.file@, exports: self.exports.deep_view() }
    }
}

/// A dependency-graph edge: an import from one file to a resolved path or an
/// external package.
#[derive(Debug, PartialEq)]
pub struct DependencyEdge {
    pub from: String,
    pub to: String,
    pub symbols: Vec<String>,
    pub external: bool,
}

pub ghost struct DependencyEdgeView {
    pub from: Seq<char>,
    pub to: Seq<char>,
    pub symbols: Seq<Seq<char>>,
    pub external: bool,
}

impl View for DependencyEdge {
    type V = DependencyEdgeView;

    open spec fn view(&self) -> DependencyEdgeView {
        DependencyEdgeView {
            from: self.from@,
            to: self.to@,
            symbols: self.symbols.deep_view(),
            external: self.external,
        }
    }
}

/// The whole dependency graph of a workspace.
#[derive(Debug, PartialEq)]
pub struct DependencyGraph {
    pub nodes: Vec<DependencyNode>,
    pub edges: Vec<DependencyEdge>,
}

/// Where a symbol was resolved to: a local declaration site, an unresolved
/// import target, or an external package.
#[derive(Debug, PartialEq)]
pub struct SymbolLocation {
    pub file: String,
    pub line: u32,
    pub column: u32,
    pub kind: String,
    pub external: bool,
    pub package: Option<String>,
}

pub ghost struct SymbolLocationView {
    pub file: Seq<char>,
    pub line: u32,
    pub column: u32,
    pub kind: Seq<char>,
    pub external: bool,
    pub package: Option<Seq<char>>,
}

impl View for SymbolLocation {
    type V = SymbolLocationView;

    open spec fn view(&self) -> SymbolLocationView {
        SymbolLocationView {
            file: self.file@,
            line: self.line,
            column: self.column,
            kind: self.kind@,
            external: self.external,
            package: match self.package {
                Some(p) => Some(p@),
                None => None,
            },
        }
    }
}

/// One occurrence of an identifier equal to the queried symbol.
#[derive(Debug, PartialEq)]
pub struct Reference {
    pub file: String,
    pub line: u32,
    pub column: u32,
    pub context: String,
    pub is_definition: bool,
}

pub ghost struct ReferenceView {
    pub file: Seq<char>,
    pub line: u32,
    pub column: u32,
    pub context: Seq<char>,
    pub is_definition: bool,
}

impl View for Reference {
    type V = ReferenceView;

    open spec fn view(&self) -> ReferenceView {
        ReferenceView {
            file: self.file@,
            line: self.line,
            column: self.column,
            context: self.context@,
            is_definition: self.is_definition,
        }
    }
}

} // verus!
