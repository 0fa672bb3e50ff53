//! The symbol locator: pre-order lookup of the first declaration carrying a
//! name, and the building blocks for resolving a symbol through imports.

use vstd::prelude::*;
use vstd::string::*;
use crate::classify::{
    is_symbol_decl_kind, symbol_decl_kind, symbol_kind_label, symbol_kind_label_str,
};
use crate::model::{
    ImportInfo, ImportInfoView, SymbolInfo, SymbolInfoView, SymbolLocation, SymbolLocationView,
};
use crate::sig::{extract_name, name_of_decl, sig_of, signature_of};
use crate::text::str_eq;
use crate::tree::{line_from_row, line_of_row, parse_source, tree_of, ts_tree_of, Lang, SyntaxNode};

verus! {

/// Whether `node` is a symbol declaration whose extracted name is `symbol`.
pub open spec fn decl_matches(node: SyntaxNode, symbol: Seq<char>) -> bool {
    is_symbol_decl_kind(node.kind@) && name_of_decl(node) == Some(symbol)
}

/// The symbol record built from a matching declaration node.
pub open spec fn info_of(node: SyntaxNode, symbol: Seq<char>, file: Seq<char>) -> SymbolInfoView {
    SymbolInfoView {
        name: symbol,
        kind: symbol_kind_label(node.kind@),
        signature: sig_of(node.text@),
        line: line_of_row(node.row as nat),
        file: file,
    }
}

/// The first declaration of `symbol` in pre-order below (and including)
/// `node`.
pub open spec fn find_symbol_in(node: SyntaxNode, symbol: Seq<char>, file: Seq<char>) -> Option<
    SymbolInfoView,
>
    decreases node, 0int,
{
    if decl_matches(node, symbol) {
        Some(info_of(node, symbol, file))
    } else {
        find_symbol_seq(node.children@, 0, symbol, file)
    }
}

/// The first match among `cs[from..]`, in order.
pub open spec fn find_symbol_seq(
    cs: Seq<SyntaxNode>,
    from: int,
    symbol: Seq<char>,
    file: Seq<char>,
) -> Option<SymbolInfoView>
    decreases cs, cs.len() - from,
{
    if from < 0 || from >= cs.len() {
        None
    } else {
        match find_symbol_in(cs[from], symbol, file) {
            Some(r) => Some(r),
            None => find_symbol_seq(cs, from + 1, symbol, file),
        }
    }
}

/// The first declaration of `symbol` in the tree, matching `find_symbol_in`.
pub fn find_symbol_node(node: &SyntaxNode, symbol: &str, file: &str) -> (r: Option<SymbolInfo>)
    ensures
        match r {
            None => find_symbol_in(*node, symbol@, file@) is None,
            Some(si) => find_symbol_in(*node, symbol@, file@) == Some(si@),
        },
    decreases *node, 0int,
{
    if symbol_decl_kind(node.kind.as_str()) {
        match extract_name(node) {
            Some(n) => {
                if str_eq(n.as_str(), symbol) {
                    return Some(
                        SymbolInfo {
                            name: n,
                            kind: symbol_kind_label_str(node.kind.as_str()),
                            signature: signature_of(node.text.as_str()),
                            line: line_from_row(node.row),
                            file: String::from_str(file),
                        },
                    );
                }
            },
            None => {},
        }
    }
    find_symbol_in_children(&node.children, 0, symbol, file)
}

fn find_symbol_in_children(cs: &Vec<SyntaxNode>, from: usize, symbol: &str, file: &str) -> (r:
    Option<SymbolInfo>)
    ensures
        match r {
            None => find_symbol_seq(cs@, from as int, symbol@, file@) is None,
            Some(si) => find_symbol_seq(cs@, from as int, symbol@, file@) == Some(si@),
        },
    decreases cs@, cs@.len() - from,
{
    if from >= cs.len() {
        return None;
    }
    match find_symbol_node(&cs[from], symbol, file) {
        Some(si) => Some(si),
        None => find_symbol_in_children(cs, from + 1, symbol, file),
    }
}

/// The first declaration of `symbol` in a source text parsed under `lang`;
/// `None` when the text does not parse or holds no such declaration.
pub fn symbol_info_of_source(content: &str, lang: Lang, symbol: &str, file: &str) -> (r: Option<
    SymbolInfo,
>)
    ensures
        match r {
            None => match tree_of(lang, content@) {
                None => true,
                Some(t) => find_symbol_in(t, symbol@, file@) is None,
            },
            Some(si) => tree_of(lang, content@) matches Some(t) && find_symbol_in(
                t,
                symbol@,
                file@,
            ) == Some(si@),
        },
{
    match parse_source(content, lang) {
        None => None,
        Some(t) => find_symbol_node(&t, symbol, file),
    }
}

/// The location of a locally found declaration: its own file and line, not
/// external, no package.
pub open spec fn local_location_view(si: SymbolInfoView) -> SymbolLocationView {
    SymbolLocationView {
        file: si.file,
        line: si.line,
        column: 0,
        kind: si.kind,
        external: false,
        package: None,
    }
}

/// Turns a found symbol record into its location.
pub fn location_of_info(info: SymbolInfo) -> (r: SymbolLocation)
    ensures
        r@ == local_location_view(info@),
{
    SymbolLocation {
        file: info.file,
        line: info.line,
        column: 0,
        kind: info.kind,
        external: false,
        package: None,
    }
}

/// The location reported for a symbol that comes from an external package.
pub open spec fn external_location_view(package: Seq<char>) -> SymbolLocationView {
    SymbolLocationView {
        file: Seq::empty(),
        line: 0,
        column: 0,
        kind: "import"@,
        external: true,
        package: Some(package),
    }
}

/// The external-package location for a specifier.
pub fn external_location(package: String) -> (r: SymbolLocation)
    ensures
        r@ == external_location_view(package@),
{
    SymbolLocation {
        file: String::new(),
        line: 0,
        column: 0,
        kind: String::from_str("import"),
        external: true,
        package: Some(package),
    }
}

/// The fallback location for an import whose target held no matching
/// declaration: the resolved path with no line.
pub open spec fn fallback_location_view(path: Seq<char>) -> SymbolLocationView {
    SymbolLocationView {
        file: path,
        line: 0,
        column: 0,
        kind: "import"@,
        external: false,
        package: None,
    }
}

/// The fallback location for a resolved import path.
pub fn fallback_location(path: String) -> (r: SymbolLocation)
    ensures
        r@ == fallback_location_view(path@),
{
    SymbolLocation {
        file: path,
        line: 0,
        column: 0,
        kind: String::from_str("import"),
        external: false,
        package: None,
    }
}

/// Whether an import binds `symbol`: either among its symbols, or as the
/// binding of a namespace import.
pub open spec fn import_matches(i: ImportInfoView, symbol: Seq<char>) -> bool {
    i.symbols.contains(symbol) || (i.is_namespace && i.symbols.len() > 0 && i.symbols[0] == symbol)
}

/// The index of the first import binding `symbol`, from `from` on.
pub open spec fn first_import_match(
    is: Seq<ImportInfoView>,
    from: int,
    symbol: Seq<char>,
) -> Option<int>
    decreases is.len() - from,
{
    if from < 0 || from >= is.len() {
        None
    } else if import_matches(is[from], symbol) {
        Some(from)
    } else {
        first_import_match(is, from + 1, symbol)
    }
}

fn symbols_contain(v: &Vec<String>, symbol: &str) -> (r: bool)
    ensures
        r == v.deep_view().contains(symbol@),
{
    let mut i: usize = 0;
    while i < v.len()
        invariant
            i <= v@.len(),
            forall|j: int| 0 <= j < i ==> v.deep_view()[j] != symbol@,
        decreases v@.len() - i,
    {
        if str_eq(v[i].as_str(), symbol) {
            assert(v.deep_view()[i as int] == symbol@);
            return true;
        }
        i += 1;
    }
    false
}

fn import_matches_exec(i: &ImportInfo, symbol: &str) -> (r: bool)
    ensures
        r == import_matches(i@, symbol@),
{
    if symbols_contain(&i.symbols, symbol) {
        return true;
    }
    if i.is_namespace && i.symbols.len() > 0 {
        if str_eq(i.symbols[0].as_str(), symbol) {
            assert(i@.symbols[0] == symbol@);
            return true;
        }
    }
    false
}

/// The index of the first import that binds `symbol`, matching
/// `first_import_match`.
pub fn match_import(imports: &Vec<ImportInfo>, symbol: &str) -> (r: Option<usize>)
    ensures
        match r {
            None => first_import_match(
                imports@.map_values(|i: ImportInfo| i@),
                0,
                symbol@,
            ) is None,
            Some(idx) => idx < imports@.len() && first_import_match(
                imports@.map_values(|i: ImportInfo| i@),
                0,
                symbol@,
            ) == Some(idx as int),
        },
{
    match_import_from(imports, 0, symbol)
}

fn match_import_from(imports: &Vec<ImportInfo>, from: usize, symbol: &str) -> (r: Option<usize>)
    ensures
        match r {
            None => first_import_match(
                imports@.map_values(|i: ImportInfo| i@),
                from as int,
                symbol@,
            ) is None,
            Some(idx) => from <= idx < imports@.len() && first_import_match(
                imports@.map_values(|i: ImportInfo| i@),
                from as int,
                symbol@,
            ) == Some(idx as int),
        },
    decreases imports@.len() - from,
{
    if from >= imports.len() {
        return None;
    }
    if import_matches_exec(&imports[from], symbol) {
        proof {
            assert(imports@.map_values(|i: ImportInfo| i@)[from as int] == imports@[from as int]@);
        }
        Some(from)
    } else {
        proof {
            assert(imports@.map_values(|i: ImportInfo| i@)[from as int] == imports@[from as int]@);
        }
        match_import_from(imports, from + 1, symbol)
    }
}

/// Finds `symbol` in an imported file's source: its declaration site when the
/// text parses and declares it, else the fallback record on the resolved
/// path.
pub fn locate_imported(content: &str, path: String, symbol: &str) -> (r: SymbolLocation)
    ensures
        r@ == match ts_tree_of(content@) {
            None => fallback_location_view(path@),
            Some(t) => match find_symbol_in(t, symbol@, path@) {
                Some(si) => local_location_view(si),
                None => fallback_location_view(path@),
            },
        },
{
    match parse_source(content, Lang::TypeScript) {
        None => fallback_location(path),
        Some(t) => {
            match find_symbol_node(&t, symbol, path.as_str()) {
                Some(si) => location_of_info(si),
                None => fallback_location(path),
            }
        },
    }
}

/// Whether `n` is a node of the tree rooted at `root`.
pub open spec fn in_tree(n: SyntaxNode, root: SyntaxNode) -> bool
    decreases root, 0int,
{
    n == root || in_tree_seq(n, root.children@, 0)
}

/// Whether `n` is in any subtree of `cs[from..]`.
pub open spec fn in_tree_seq(n: SyntaxNode, cs: Seq<SyntaxNode>, from: int) -> bool
    decreases cs, cs.len() - from,
{
    if from < 0 || from >= cs.len() {
        false
    } else {
        in_tree(n, cs[from]) || in_tree_seq(n, cs, from + 1)
    }
}

/// Symbol lookup and resolution round-trip: a found symbol record comes from
/// a real declaration of that name in the tree, carries the declaration's
/// 1-based line, and the location derived for it points at the same file,
/// line and kind, is not external, and names no package.
pub proof fn lemma_local_resolution_round_trip(
    tree: SyntaxNode,
    symbol: Seq<char>,
    file: Seq<char>,
)
    ensures
        match find_symbol_in(tree, symbol, file) {
            Some(si) => {
                &&& exists|n: SyntaxNode|
                    in_tree(n, tree) && decl_matches(n, symbol) && si == info_of(n, symbol, file)
                &&& si.name == symbol
                &&& si.file == file
                &&& local_location_view(si) == SymbolLocationView {
                    file: si.file,
                    line: si.line,
                    column: 0,
                    kind: si.kind,
                    external: false,
                    package: None,
                }
            },
            None => true,
        },
    decreases tree, 0int,
{
    if decl_matches(tree, symbol) {
        assert(in_tree(tree, tree));
        assert(in_tree(tree, tree) && decl_matches(tree, symbol) && find_symbol_in(
            tree,
            symbol,
            file,
        )->Some_0 == info_of(tree, symbol, file));
    } else {
        lemma_round_trip_seq(tree.children@, 0, symbol, file);
        match find_symbol_seq(tree.children@, 0, symbol, file) {
            Some(si) => {
                let n = choose|n: SyntaxNode|
                    in_tree_seq(n, tree.children@, 0) && decl_matches(n, symbol) && si == info_of(
                        n,
                        symbol,
                        file,
                    );
                assert(in_tree(n, tree));
            },
            None => {},
        }
    }
}

proof fn lemma_round_trip_seq(cs: Seq<SyntaxNode>, from: int, symbol: Seq<char>, file: Seq<char>)
    ensures
        match find_symbol_seq(cs, from, symbol, file) {
            Some(si) => {
                &&& exists|n: SyntaxNode|
                    in_tree_seq(n, cs, from) && decl_matches(n, symbol) && si == info_of(
                        n,
                        symbol,
                        file,
                    )
                &&& si.name == symbol
                &&& si.file == file
            },
            None => true,
        },
    decreases cs, cs.len() - from,
{
    if 0 <= from < cs.len() {
        lemma_local_resolution_round_trip(cs[from], symbol, file);
        lemma_round_trip_seq(cs, from + 1, symbol, file);
        match find_symbol_in(cs[from], symbol, file) {
            Some(si) => {
                let n = choose|n: SyntaxNode|
                    in_tree(n, cs[from]) && decl_matches(n, symbol) && si == info_of(
                        n,
                        symbol,
                        file,
                    );
                assert(in_tree_seq(n, cs, from));
            },
            None => {
                match find_symbol_seq(cs, from + 1, symbol, file) {
                    Some(si) => {
                        let n = choose|n: SyntaxNode|
                            in_tree_seq(n, cs, from + 1) && decl_matches(n, symbol) && si
                                == info_of(n, symbol, file);
                        assert(in_tree_seq(n, cs, from));
                    },
                    None => {},
                }
            },
        }
    }
}

} // verus!
