//! The import/export extractor for TypeScript trees. The whole tree is
//! walked; every `import_statement` yields at most one import record and
//! every `export_statement` yields export records for the declarations it
//! wraps.

use vstd::prelude::*;
use vstd::string::*;
use crate::model::{
    ExportInfo, ExportInfoView, ImportInfo, ImportInfoView, ImportsExports, ImportsExportsView,
};
use crate::sig::first_ident_text;
use crate::text::{is_quote_char, str_eq, strip_ends, strip_quotes};
use crate::tree::{ts_tree_of, SyntaxNode};

verus! {

/// The module specifier of an import, with its quotes stripped.
pub open spec fn specifier_of(text: Seq<char>) -> Seq<char> {
    strip_ends(text, |c: char| is_quote_char(c))
}

/// The running state while one `import_statement` is folded over its
/// children.
pub ghost struct ImportAcc {
    pub source: Seq<char>,
    pub symbols: Seq<Seq<char>>,
    pub is_default: bool,
    pub is_namespace: bool,
}

/// The initial import state: no specifier, no symbols, no flags.
pub open spec fn import_acc_init() -> ImportAcc {
    ImportAcc { source: Seq::empty(), symbols: Seq::empty(), is_default: false, is_namespace: false }
}

/// The texts of all `identifier` children of a `namespace_import`, appended
/// to `syms`.
pub open spec fn ns_symbols(cs: Seq<SyntaxNode>, from: int, syms: Seq<Seq<char>>) -> Seq<Seq<char>>
    decreases cs.len() - from,
{
    if from < 0 || from >= cs.len() {
        syms
    } else if cs[from].kind@ == "identifier"@ {
        ns_symbols(cs, from + 1, syms.push(cs[from].text@))
    } else {
        ns_symbols(cs, from + 1, syms)
    }
}

/// For every `import_specifier` child of a `named_imports` node, the text of
/// its first `identifier` child (the local binding), appended to `syms`.
pub open spec fn named_symbols(cs: Seq<SyntaxNode>, from: int, syms: Seq<Seq<char>>) -> Seq<
    Seq<char>,
>
    decreases cs.len() - from,
{
    if from < 0 || from >= cs.len() {
        syms
    } else if cs[from].kind@ == "import_specifier"@ {
        match first_ident_text(cs[from].children@, 0) {
            Some(t) => named_symbols(cs, from + 1, syms.push(t)),
            None => named_symbols(cs, from + 1, syms),
        }
    } else {
        named_symbols(cs, from + 1, syms)
    }
}

/// One `import_clause` folded over its children: a bare identifier is a
/// default import, a `namespace_import` sets the namespace flag and binds its
/// identifier, and `named_imports` contributes its local bindings.
pub open spec fn clause_acc(cs: Seq<SyntaxNode>, from: int, acc: ImportAcc) -> ImportAcc
    decreases cs.len() - from,
{
    if from < 0 || from >= cs.len() {
        acc
    } else {
        let c = cs[from];
        let next = if c.kind@ == "identifier"@ {
            ImportAcc { symbols: acc.symbols.push(c.text@), is_default: true, ..acc }
        } else if c.kind@ == "namespace_import"@ {
            ImportAcc { symbols: ns_symbols(c.children@, 0, acc.symbols), is_namespace: true, ..acc }
        } else if c.kind@ == "named_imports"@ {
            ImportAcc { symbols: named_symbols(c.children@, 0, acc.symbols), ..acc }
        } else {
            acc
        };
        clause_acc(cs, from + 1, next)
    }
}

/// One `import_statement` folded over its children: a string child sets the
/// specifier, an `import_clause` child contributes symbols and flags.
pub open spec fn import_acc(cs: Seq<SyntaxNode>, from: int, acc: ImportAcc) -> ImportAcc
    decreases cs.len() - from,
{
    if from < 0 || from >= cs.len() {
        acc
    } else {
        let c = cs[from];
        let next = if c.kind@ == "string"@ || c.kind@ == "string_fragment"@ {
            ImportAcc { source: specifier_of(c.text@), ..acc }
        } else if c.kind@ == "import_clause"@ {
            clause_acc(c.children@, 0, acc)
        } else {
            acc
        };
        import_acc(cs, from + 1, next)
    }
}

/// The import record of an `import_statement` node; `None` when its
/// specifier is empty.
pub open spec fn import_of(node: SyntaxNode) -> Option<ImportInfoView> {
    let acc = import_acc(node.children@, 0, import_acc_init());
    if acc.source.len() == 0 {
        None
    } else {
        Some(
            ImportInfoView {
                source: acc.source,
                symbols: acc.symbols,
                is_default: acc.is_default,
                is_namespace: acc.is_namespace,
            },
        )
    }
}

/// The text of the first child of kind `identifier` or `type_identifier`.
pub open spec fn first_id_or_type_text(cs: Seq<SyntaxNode>, from: int) -> Option<Seq<char>>
    decreases cs.len() - from,
{
    if from < 0 || from >= cs.len() {
        None
    } else if cs[from].kind@ == "identifier"@ || cs[from].kind@ == "type_identifier"@ {
        Some(cs[from].text@)
    } else {
        first_id_or_type_text(cs, from + 1)
    }
}

/// The text of the first child of kind `type_identifier`.
pub open spec fn first_type_ident_text(cs: Seq<SyntaxNode>, from: int) -> Option<Seq<char>>
    decreases cs.len() - from,
{
    if from < 0 || from >= cs.len() {
        None
    } else if cs[from].kind@ == "type_identifier"@ {
        Some(cs[from].text@)
    } else {
        first_type_ident_text(cs, from + 1)
    }
}

/// The running state while one `export_statement` is folded over its
/// children.
pub ghost struct ExportAcc {
    pub is_default: bool,
    pub exports: Seq<ExportInfoView>,
}

/// An exported name taken from a declaration child, provided it is
/// non-empty.
pub open spec fn push_export(
    acc: ExportAcc,
    name: Option<Seq<char>>,
    kind: Seq<char>,
) -> ExportAcc {
    match name {
        Some(t) => if t.len() > 0 {
            ExportAcc {
                exports: acc.exports.push(
                    ExportInfoView { name: t, kind: kind, is_default: acc.is_default },
                ),
                ..acc
            }
        } else {
            acc
        },
        None => acc,
    }
}

/// Every `variable_declarator` child of a `lexical_declaration` exports its
/// first identifier.
pub open spec fn lex_exports(cs: Seq<SyntaxNode>, from: int, acc: ExportAcc) -> ExportAcc
    decreases cs.len() - from,
{
    if from < 0 || from >= cs.len() {
        acc
    } else if cs[from].kind@ == "variable_declarator"@ {
        lex_exports(
            cs,
            from + 1,
            push_export(acc, first_ident_text(cs[from].children@, 0), "variable"@),
        )
    } else {
        lex_exports(cs, from + 1, acc)
    }
}

/// One `export_statement` folded over its children: a `default` keyword sets
/// the flag; function, class, interface and lexical declarations export
/// their names.
pub open spec fn export_acc(cs: Seq<SyntaxNode>, from: int, acc: ExportAcc) -> ExportAcc
    decreases cs.len() - from,
{
    if from < 0 || from >= cs.len() {
        acc
    } else {
        let c = cs[from];
        let next = if c.kind@ == "default"@ {
            ExportAcc { is_default: true, ..acc }
        } else if c.kind@ == "function_declaration"@ {
            push_export(acc, first_id_or_type_text(c.children@, 0), "function"@)
        } else if c.kind@ == "class_declaration"@ {
            push_export(acc, first_id_or_type_text(c.children@, 0), "class"@)
        } else if c.kind@ == "lexical_declaration"@ {
            lex_exports(c.children@, 0, acc)
        } else if c.kind@ == "interface_declaration"@ {
            push_export(acc, first_type_ident_text(c.children@, 0), "interface"@)
        } else {
            acc
        };
        export_acc(cs, from + 1, next)
    }
}

/// The export records of an `export_statement` node.
pub open spec fn exports_of(node: SyntaxNode) -> Seq<ExportInfoView> {
    export_acc(node.children@, 0, ExportAcc { is_default: false, exports: Seq::empty() }).exports
}

/// The import and export records contributed by `node` itself.
pub open spec fn own_records(node: SyntaxNode) -> ImportsExportsView {
    ImportsExportsView {
        imports: if node.kind@ == "import_statement"@ {
            match import_of(node) {
                Some(i) => seq![i],
                None => Seq::empty(),
            }
        } else {
            Seq::empty()
        },
        exports: if node.kind@ == "export_statement"@ {
            exports_of(node)
        } else {
            Seq::empty()
        },
    }
}

/// All import and export records in the subtree rooted at `node`, in
/// pre-order; unlike the skeleton walk, every child is descended into.
pub open spec fn records_of(node: SyntaxNode) -> ImportsExportsView
    decreases node, 0int,
{
    let own = own_records(node);
    let rest = records_seq(node.children@, 0);
    ImportsExportsView { imports: own.imports + rest.imports, exports: own.exports + rest.exports }
}

/// The concatenated records of `cs[from..]`.
pub open spec fn records_seq(cs: Seq<SyntaxNode>, from: int) -> ImportsExportsView
    decreases cs, cs.len() - from,
{
    if from < 0 || from >= cs.len() {
        ImportsExportsView { imports: Seq::empty(), exports: Seq::empty() }
    } else {
        let head = records_of(cs[from]);
        let tail = records_seq(cs, from + 1);
        ImportsExportsView {
            imports: head.imports + tail.imports,
            exports: head.exports + tail.exports,
        }
    }
}

/// The executable counterpart of `ImportAcc`.
pub struct ImportBuilder {
    pub source: String,
    pub symbols: Vec<String>,
    pub is_default: bool,
    pub is_namespace: bool,
}

impl View for ImportBuilder {
    type V = ImportAcc;

    open spec fn view(&self) -> ImportAcc {
        ImportAcc {
            source: self.source@,
            symbols: self.symbols.deep_view(),
            is_default: self.is_default,
            is_namespace: self.is_namespace,
        }
    }
}

fn ns_fold(cs: &Vec<SyntaxNode>, from: usize, mut syms: Vec<String>) -> (r: Vec<String>)
    ensures
        r.deep_view() == ns_symbols(cs@, from as int, syms.deep_view()),
    decreases cs.len() - from,
{
    if from >= cs.len() {
        return syms;
    }
    let c = &cs[from];
    if str_eq(c.kind.as_str(), "identifier") {
        let ghost before = syms.deep_view();
        syms.push(c.text.clone());
        proof {
            assert(syms.deep_view() =~= before.push(c.text@));
        }
    }
    ns_fold(cs, from + 1, syms)
}

fn first_ident_text_of(cs: &Vec<SyntaxNode>, from: usize) -> (r: Option<String>)
    ensures
        match r {
            None => first_ident_text(cs@, from as int) is None,
            Some(t) => first_ident_text(cs@, from as int) == Some(t@),
        },
    decreases cs.len() - from,
{
    if from >= cs.len() {
        return None;
    }
    let c = &cs[from];
    if str_eq(c.kind.as_str(), "identifier") {
        Some(c.text.clone())
    } else {
        first_ident_text_of(cs, from + 1)
    }
}

fn named_fold(cs: &Vec<SyntaxNode>, from: usize, mut syms: Vec<String>) -> (r: Vec<String>)
    ensures
        r.deep_view() == named_symbols(cs@, from as int, syms.deep_view()),
    decreases cs.len() - from,
{
    if from >= cs.len() {
        return syms;
    }
    let c = &cs[from];
    if str_eq(c.kind.as_str(), "import_specifier") {
        match first_ident_text_of(&c.children, 0) {
            Some(t) => {
                let ghost before = syms.deep_view();
                let ghost tv = t@;
                syms.push(t);
                proof {
                    assert(syms.deep_view() =~= before.push(tv));
                }
            },
            None => {},
        }
    }
    named_fold(cs, from + 1, syms)
}

fn clause_fold(cs: &Vec<SyntaxNode>, from: usize, b: ImportBuilder) -> (r: ImportBuilder)
    ensures
        r@ == clause_acc(cs@, from as int, b@),
    decreases cs.len() - from,
{
    if from >= cs.len() {
        return b;
    }
    let c = &cs[from];
    let next = if str_eq(c.kind.as_str(), "identifier") {
        let ghost before = b@;
        let mut syms = b.symbols;
        syms.push(c.text.clone());
        proof {
            assert(syms.deep_view() =~= before.symbols.push(c.text@));
        }
        ImportBuilder { symbols: syms, is_default: true, source: b.source, is_namespace: b.is_namespace }
    } else if str_eq(c.kind.as_str(), "namespace_import") {
        let syms = ns_fold(&c.children, 0, b.symbols);
        ImportBuilder { symbols: syms, is_namespace: true, source: b.source, is_default: b.is_default }
    } else if str_eq(c.kind.as_str(), "named_imports") {
        let syms = named_fold(&c.children, 0, b.symbols);
        ImportBuilder { symbols: syms, source: b.source, is_default: b.is_default, is_namespace: b.is_namespace }
    } else {
        b
    };
    clause_fold(cs, from + 1, next)
}

fn import_fold(cs: &Vec<SyntaxNode>, from: usize, b: ImportBuilder) -> (r: ImportBuilder)
    ensures
        r@ == import_acc(cs@, from as int, b@),
    decreases cs.len() - from,
{
    if from >= cs.len() {
        return b;
    }
    let c = &cs[from];
    let next = if str_eq(c.kind.as_str(), "string") || str_eq(c.kind.as_str(), "string_fragment") {
        let src = strip_quotes(c.text.as_str());
        ImportBuilder { source: src, symbols: b.symbols, is_default: b.is_default, is_namespace: b.is_namespace }
    } else if str_eq(c.kind.as_str(), "import_clause") {
        clause_fold(&c.children, 0, b)
    } else {
        b
    };
    import_fold(cs, from + 1, next)
}

/// The import record of one `import_statement` node, matching `import_of`.
pub fn import_of_node(node: &SyntaxNode) -> (r: Option<ImportInfo>)
    ensures
        match r {
            None => import_of(*node) is None,
            Some(i) => import_of(*node) == Some(i@),
        },
{
    let b = ImportBuilder {
        source: String::new(),
        symbols: Vec::new(),
        is_default: false,
        is_namespace: false,
    };
    proof {
        assert(b@.symbols =~= import_acc_init().symbols);
        assert(b@ == import_acc_init());
    }
    let b = import_fold(&node.children, 0, b);
    if b.source.unicode_len() == 0 {
        proof {
            assert(b@.source.len() == 0);
        }
        None
    } else {
        Some(
            ImportInfo {
                source: b.source,
                symbols: b.symbols,
                is_default: b.is_default,
                is_namespace: b.is_namespace,
            },
        )
    }
}

/// The executable counterpart of `ExportAcc`.
pub struct ExportBuilder {
    pub is_default: bool,
    pub exports: Vec<ExportInfo>,
}

impl View for ExportBuilder {
    type V = ExportAcc;

    open spec fn view(&self) -> ExportAcc {
        ExportAcc {
            is_default: self.is_default,
            exports: self.exports@.map_values(|e: ExportInfo| e@),
        }
    }
}

fn push_export_to(b: ExportBuilder, name: Option<String>, kind: &str) -> (r: ExportBuilder)
    ensures
        r@ == push_export(
            b@,
            match name {
                Some(t) => Some(t@),
                None => None,
            },
            kind@,
        ),
{
    match name {
        Some(t) => {
            if t.unicode_len() > 0 {
                let ghost before = b@;
                let ghost tv = t@;
                let mut exports = b.exports;
                exports.push(
                    ExportInfo { name: t, kind: String::from_str(kind), is_default: b.is_default },
                );
                proof {
                    assert(exports@.map_values(|e: ExportInfo| e@) =~= before.exports.push(
                        ExportInfoView { name: tv, kind: kind@, is_default: before.is_default },
                    ));
                }
                ExportBuilder { is_default: b.is_default, exports }
            } else {
                b
            }
        },
        None => b,
    }
}

fn first_id_or_type_text_of(cs: &Vec<SyntaxNode>, from: usize) -> (r: Option<String>)
    ensures
        match r {
            None => first_id_or_type_text(cs@, from as int) is None,
            Some(t) => first_id_or_type_text(cs@, from as int) == Some(t@),
        },
    decreases cs.len() - from,
{
    if from >= cs.len() {
        return None;
    }
    let c = &cs[from];
    if str_eq(c.kind.as_str(), "identifier") || str_eq(c.kind.as_str(), "type_identifier") {
        Some(c.text.clone())
    } else {
        first_id_or_type_text_of(cs, from + 1)
    }
}

fn first_type_ident_text_of(cs: &Vec<SyntaxNode>, from: usize) -> (r: Option<String>)
    ensures
        match r {
            None => first_type_ident_text(cs@, from as int) is None,
            Some(t) => first_type_ident_text(cs@, from as int) == Some(t@),
        },
    decreases cs.len() - from,
{
    if from >= cs.len() {
        return None;
    }
    let c = &cs[from];
    if str_eq(c.kind.as_str(), "type_identifier") {
        Some(c.text.clone())
    } else {
        first_type_ident_text_of(cs, from + 1)
    }
}

fn lex_fold(cs: &Vec<SyntaxNode>, from: usize, b: ExportBuilder) -> (r: ExportBuilder)
    ensures
        r@ == lex_exports(cs@, from as int, b@),
    decreases cs.len() - from,
{
    if from >= cs.len() {
        return b;
    }
    let c = &cs[from];
    if str_eq(c.kind.as_str(), "variable_declarator") {
        let name = first_ident_text_of(&c.children, 0);
        let next = push_export_to(b, name, "variable");
        lex_fold(cs, from + 1, next)
    } else {
        lex_fold(cs, from + 1, b)
    }
}

fn export_fold(cs: &Vec<SyntaxNode>, from: usize, b: ExportBuilder) -> (r: ExportBuilder)
    ensures
        r@ == export_acc(cs@, from as int, b@),
    decreases cs.len() - from,
{
    if from >= cs.len() {
        return b;
    }
    let c = &cs[from];
    let next = if str_eq(c.kind.as_str(), "default") {
        ExportBuilder { is_default: true, exports: b.exports }
    } else if str_eq(c.kind.as_str(), "function_declaration") {
        let name = first_id_or_type_text_of(&c.children, 0);
        push_export_to(b, name, "function")
    } else if str_eq(c.kind.as_str(), "class_declaration") {
        let name = first_id_or_type_text_of(&c.children, 0);
        push_export_to(b, name, "class")
    } else if str_eq(c.kind.as_str(), "lexical_declaration") {
        lex_fold(&c.children, 0, b)
    } else if str_eq(c.kind.as_str(), "interface_declaration") {
        let name = first_type_ident_text_of(&c.children, 0);
        push_export_to(b, name, "interface")
    } else {
        b
    };
    export_fold(cs, from + 1, next)
}

/// The export records of one `export_statement` node, matching `exports_of`.
pub fn exports_of_node(node: &SyntaxNode) -> (r: Vec<ExportInfo>)
    ensures
        r@.map_values(|e: ExportInfo| e@) == exports_of(*node),
{
    let b = ExportBuilder { is_default: false, exports: Vec::new() };
    proof {
        assert(b@.exports =~= Seq::<ExportInfoView>::empty());
        assert(b@ == ExportAcc { is_default: false, exports: Seq::empty() });
    }
    let b = export_fold(&node.children, 0, b);
    b.exports
}

/// Walks the whole subtree rooted at `node` and appends every import and
/// export record found, in pre-order.
pub fn collect_records(
    node: &SyntaxNode,
    imports: &mut Vec<ImportInfo>,
    exports: &mut Vec<ExportInfo>,
)
    ensures
        final(imports)@.map_values(|i: ImportInfo| i@) == old(imports)@.map_values(
            |i: ImportInfo| i@,
        ) + records_of(*node).imports,
        final(exports)@.map_values(|e: ExportInfo| e@) == old(exports)@.map_values(
            |e: ExportInfo| e@,
        ) + records_of(*node).exports,
    decreases *node, 0int,
{
    if str_eq(node.kind.as_str(), "import_statement") {
        match import_of_node(node) {
            Some(i) => {
                imports.push(i);
            },
            None => {},
        }
    }
    if str_eq(node.kind.as_str(), "export_statement") {
        let mut es = exports_of_node(node);
        let ghost before = exports@.map_values(|e: ExportInfo| e@);
        let ghost esv = es@.map_values(|e: ExportInfo| e@);
        exports.append(&mut es);
        proof {
            assert(exports@.map_values(|e: ExportInfo| e@) =~= before + esv);
        }
    }
    proof {
        assert(imports@.map_values(|i: ImportInfo| i@) =~= old(imports)@.map_values(
            |i: ImportInfo| i@,
        ) + own_records(*node).imports);
        assert(exports@.map_values(|e: ExportInfo| e@) =~= old(exports)@.map_values(
            |e: ExportInfo| e@,
        ) + own_records(*node).exports);
    }
    collect_records_seq(&node.children, 0, imports, exports);
    proof {
        assert(imports@.map_values(|i: ImportInfo| i@) =~= old(imports)@.map_values(
            |i: ImportInfo| i@,
        ) + records_of(*node).imports);
        assert(exports@.map_values(|e: ExportInfo| e@) =~= old(exports)@.map_values(
            |e: ExportInfo| e@,
        ) + records_of(*node).exports);
    }
}

fn collect_records_seq(
    cs: &Vec<SyntaxNode>,
    from: usize,
    imports: &mut Vec<ImportInfo>,
    exports: &mut Vec<ExportInfo>,
)
    ensures
        final(imports)@.map_values(|i: ImportInfo| i@) == old(imports)@.map_values(
            |i: ImportInfo| i@,
        ) + records_seq(cs@, from as int).imports,
        final(exports)@.map_values(|e: ExportInfo| e@) == old(exports)@.map_values(
            |e: ExportInfo| e@,
        ) + records_seq(cs@, from as int).exports,
    decreases cs@, cs@.len() - from,
{
    if from >= cs.len() {
        proof {
            assert(imports@.map_values(|i: ImportInfo| i@) =~= old(imports)@.map_values(
                |i: ImportInfo| i@,
            ) + records_seq(cs@, from as int).imports);
            assert(exports@.map_values(|e: ExportInfo| e@) =~= old(exports)@.map_values(
                |e: ExportInfo| e@,
            ) + records_seq(cs@, from as int).exports);
        }
        return ;
    }
    collect_records(&cs[from], imports, exports);
    collect_records_seq(cs, from + 1, imports, exports);
    proof {
        assert(imports@.map_values(|i: ImportInfo| i@) =~= old(imports)@.map_values(
            |i: ImportInfo| i@,
        ) + records_seq(cs@, from as int).imports);
        assert(exports@.map_values(|e: ExportInfo| e@) =~= old(exports)@.map_values(
            |e: ExportInfo| e@,
        ) + records_seq(cs@, from as int).exports);
    }
}

/// The import/export model of a whole tree, matching `records_of`.
pub fn imports_exports_of_tree(tree: &SyntaxNode) -> (r: ImportsExports)
    ensures
        r@ == records_of(*tree),
{
    let mut imports: Vec<ImportInfo> = Vec::new();
    let mut exports: Vec<ExportInfo> = Vec::new();
    proof {
        assert(imports@.map_values(|i: ImportInfo| i@) =~= Seq::<ImportInfoView>::empty());
        assert(exports@.map_values(|e: ExportInfo| e@) =~= Seq::<ExportInfoView>::empty());
    }
    collect_records(tree, &mut imports, &mut exports);
    let r = ImportsExports { imports, exports };
    proof {
        assert(r@.imports =~= records_of(*tree).imports);
        assert(r@.exports =~= records_of(*tree).exports);
    }
    r
}

/// The import/export model of a TypeScript source text; `None` when the text
/// does not parse.
pub fn imports_exports_of_source(content: &str) -> (r: Option<ImportsExports>)
    ensures
        match r {
            None => ts_tree_of(content@) is None,
            Some(ie) => ts_tree_of(content@) matches Some(t) && ie@ == records_of(t),
        },
{
    match crate::tree::parse_source(content, crate::tree::Lang::TypeScript) {
        None => None,
        Some(t) => Some(imports_exports_of_tree(&t)),
    }
}


/// A well-formed export record: a non-empty name and one of the four export
/// kinds.
pub open spec fn export_wf(e: ExportInfoView) -> bool {
    e.name.len() > 0 && (e.kind == "function"@ || e.kind == "class"@ || e.kind == "variable"@
        || e.kind == "interface"@)
}

proof fn lemma_lex_exports_wf(cs: Seq<SyntaxNode>, from: int, acc: ExportAcc)
    ensures
        lex_exports(cs, from, acc).exports.len() >= acc.exports.len(),
        forall|i: int|
            0 <= i < acc.exports.len() ==> #[trigger] lex_exports(cs, from, acc).exports[i]
                == acc.exports[i],
        forall|i: int|
            acc.exports.len() <= i < lex_exports(cs, from, acc).exports.len() ==> export_wf(
                #[trigger] lex_exports(cs, from, acc).exports[i],
            ),
    decreases cs.len() - from,
{
    if 0 <= from < cs.len() {
        if cs[from].kind@ == "variable_declarator"@ {
            let next = push_export(acc, first_ident_text(cs[from].children@, 0), "variable"@);
            lemma_lex_exports_wf(cs, from + 1, next);
        } else {
            lemma_lex_exports_wf(cs, from + 1, acc);
        }
    }
}

proof fn lemma_export_acc_wf(cs: Seq<SyntaxNode>, from: int, acc: ExportAcc)
    ensures
        export_acc(cs, from, acc).exports.len() >= acc.exports.len(),
        forall|i: int|
            0 <= i < acc.exports.len() ==> #[trigger] export_acc(cs, from, acc).exports[i]
                == acc.exports[i],
        forall|i: int|
            acc.exports.len() <= i < export_acc(cs, from, acc).exports.len() ==> export_wf(
                #[trigger] export_acc(cs, from, acc).exports[i],
            ),
    decreases cs.len() - from,
{
    if 0 <= from < cs.len() {
        let c = cs[from];
        let next = if c.kind@ == "default"@ {
            ExportAcc { is_default: true, ..acc }
        } else if c.kind@ == "function_declaration"@ {
            push_export(acc, first_id_or_type_text(c.children@, 0), "function"@)
        } else if c.kind@ == "class_declaration"@ {
            push_export(acc, first_id_or_type_text(c.children@, 0), "class"@)
        } else if c.kind@ == "lexical_declaration"@ {
            lex_exports(c.children@, 0, acc)
        } else if c.kind@ == "interface_declaration"@ {
            push_export(acc, first_type_ident_text(c.children@, 0), "interface"@)
        } else {
            acc
        };
        if c.kind@ == "lexical_declaration"@ {
            lemma_lex_exports_wf(c.children@, 0, acc);
        }
        lemma_export_acc_wf(cs, from + 1, next);
        assert(next.exports.len() >= acc.exports.len());
        assert(forall|i: int|
            0 <= i < acc.exports.len() ==> #[trigger] next.exports[i] == acc.exports[i]);
        assert(forall|i: int|
            acc.exports.len() <= i < next.exports.len() ==> export_wf(#[trigger] next.exports[i]));
    }
}

/// Every export record of a tree has a non-empty name and one of the four
/// export kinds.
pub proof fn lemma_exports_wf(node: SyntaxNode)
    ensures
        forall|i: int|
            0 <= i < records_of(node).exports.len() ==> export_wf(
                #[trigger] records_of(node).exports[i],
            ),
    decreases node, 0int,
{
    lemma_exports_wf_seq(node.children@, 0);
    let own = own_records(node);
    if node.kind@ == "export_statement"@ {
        lemma_export_acc_wf(node.children@, 0, ExportAcc { is_default: false, exports: Seq::empty() });
    }
    assert forall|i: int| 0 <= i < records_of(node).exports.len() implies export_wf(
        #[trigger] records_of(node).exports[i],
    ) by {
        let rest = records_seq(node.children@, 0);
        if i < own.exports.len() {
            assert(records_of(node).exports[i] == own.exports[i]);
        } else {
            assert(records_of(node).exports[i] == rest.exports[i - own.exports.len()]);
        }
    }
}

proof fn lemma_exports_wf_seq(cs: Seq<SyntaxNode>, from: int)
    ensures
        forall|i: int|
            0 <= i < records_seq(cs, from).exports.len() ==> export_wf(
                #[trigger] records_seq(cs, from).exports[i],
            ),
    decreases cs, cs.len() - from,
{
    if 0 <= from < cs.len() {
        lemma_exports_wf(cs[from]);
        lemma_exports_wf_seq(cs, from + 1);
        let head = records_of(cs[from]);
        let tail = records_seq(cs, from + 1);
        assert forall|i: int| 0 <= i < records_seq(cs, from).exports.len() implies export_wf(
            #[trigger] records_seq(cs, from).exports[i],
        ) by {
            if i < head.exports.len() {
                assert(records_seq(cs, from).exports[i] == head.exports[i]);
            } else {
                assert(records_seq(cs, from).exports[i] == tail.exports[i - head.exports.len()]);
            }
        }
    }
}

/// Every import record of a tree carries a non-empty module specifier.
pub proof fn lemma_imports_nonempty(node: SyntaxNode)
    ensures
        forall|i: int|
            0 <= i < records_of(node).imports.len() ==> (#[trigger] records_of(
                node,
            ).imports[i]).source.len() > 0,
    decreases node, 0int,
{
    lemma_imports_nonempty_seq(node.children@, 0);
    let own = own_records(node);
    assert forall|i: int| 0 <= i < records_of(node).imports.len() implies (#[trigger] records_of(
        node,
    ).imports[i]).source.len() > 0 by {
        let rest = records_seq(node.children@, 0);
        if i < own.imports.len() {
            assert(records_of(node).imports[i] == own.imports[i]);
        } else {
            assert(records_of(node).imports[i] == rest.imports[i - own.imports.len()]);
        }
    }
}

proof fn lemma_imports_nonempty_seq(cs: Seq<SyntaxNode>, from: int)
    ensures
        forall|i: int|
            0 <= i < records_seq(cs, from).imports.len() ==> (#[trigger] records_seq(
                cs,
                from,
            ).imports[i]).source.len() > 0,
    decreases cs, cs.len() - from,
{
    if 0 <= from < cs.len() {
        lemma_imports_nonempty(cs[from]);
        lemma_imports_nonempty_seq(cs, from + 1);
        let head = records_of(cs[from]);
        let tail = records_seq(cs, from + 1);
        assert forall|i: int| 0 <= i < records_seq(cs, from).imports.len() implies (
        #[trigger] records_seq(cs, from).imports[i]).source.len() > 0 by {
            if i < head.imports.len() {
                assert(records_seq(cs, from).imports[i] == head.imports[i]);
            } else {
                assert(records_seq(cs, from).imports[i] == tail.imports[i - head.imports.len()]);
            }
        }
    }
}

/// The number of `identifier` children from `from` on.
pub open spec fn ident_count(cs: Seq<SyntaxNode>, from: int) -> nat
    decreases cs.len() - from,
{
    if from < 0 || from >= cs.len() {
        0
    } else if cs[from].kind@ == "identifier"@ {
        ident_count(cs, from + 1) + 1
    } else {
        ident_count(cs, from + 1)
    }
}

proof fn lemma_ns_symbols_len(cs: Seq<SyntaxNode>, from: int, syms: Seq<Seq<char>>)
    ensures
        ns_symbols(cs, from, syms).len() == syms.len() + ident_count(cs, from),
    decreases cs.len() - from,
{
    if 0 <= from < cs.len() {
        if cs[from].kind@ == "identifier"@ {
            lemma_ns_symbols_len(cs, from + 1, syms.push(cs[from].text@));
        } else {
            lemma_ns_symbols_len(cs, from + 1, syms);
        }
    }
}

proof fn lemma_clause_acc_inert(cs: Seq<SyntaxNode>, from: int, acc: ImportAcc)
    requires
        forall|j: int|
            from <= j < cs.len() ==> (#[trigger] cs[j].kind)@ != "identifier"@ && cs[j].kind@
                != "namespace_import"@ && cs[j].kind@ != "named_imports"@,
    ensures
        clause_acc(cs, from, acc) == acc,
    decreases cs.len() - from,
{
    if 0 <= from < cs.len() {
        lemma_clause_acc_inert(cs, from + 1, acc);
    }
}

proof fn lemma_import_acc_flags(cs: Seq<SyntaxNode>, from: int, acc: ImportAcc)
    requires
        forall|j: int| from <= j < cs.len() ==> (#[trigger] cs[j].kind)@ != "import_clause"@,
    ensures
        import_acc(cs, from, acc).symbols == acc.symbols,
        import_acc(cs, from, acc).is_default == acc.is_default,
        import_acc(cs, from, acc).is_namespace == acc.is_namespace,
    decreases cs.len() - from,
{
    if 0 <= from < cs.len() {
        let c = cs[from];
        let next = if c.kind@ == "string"@ || c.kind@ == "string_fragment"@ {
            ImportAcc { source: specifier_of(c.text@), ..acc }
        } else {
            acc
        };
        lemma_import_acc_flags(cs, from + 1, next);
    }
}

proof fn lemma_clause_pure_ns(cs: Seq<SyntaxNode>, from: int, ni: int, acc: ImportAcc)
    requires
        0 <= from <= ni < cs.len(),
        cs[ni].kind@ == "namespace_import"@,
        ident_count(cs[ni].children@, 0) == 1,
        forall|j: int|
            from <= j < cs.len() && j != ni ==> (#[trigger] cs[j].kind)@ != "identifier"@
                && cs[j].kind@ != "namespace_import"@ && cs[j].kind@ != "named_imports"@,
    ensures
        clause_acc(cs, from, acc).is_namespace,
        clause_acc(cs, from, acc).symbols.len() == acc.symbols.len() + 1,
        clause_acc(cs, from, acc).is_default == acc.is_default,
    decreases cs.len() - from,
{
    broadcast use vstd::string::group_string_axioms;

    reveal_strlit("identifier");
    reveal_strlit("namespace_import");
    if from == ni {
        assert("identifier"@.len() == 10);
        assert("namespace_import"@.len() == 16);
        assert(cs[ni].kind@ != "identifier"@);
        let next = ImportAcc {
            symbols: ns_symbols(cs[ni].children@, 0, acc.symbols),
            is_namespace: true,
            ..acc
        };
        lemma_ns_symbols_len(cs[ni].children@, 0, acc.symbols);
        lemma_clause_acc_inert(cs, ni + 1, next);
    } else {
        lemma_clause_pure_ns(cs, from + 1, ni, acc);
    }
}

/// A pure namespace import — an import clause holding exactly one
/// `namespace_import` with exactly one identifier, beside no default
/// identifier and no named imports, as the grammar produces for
/// `import * as n from "m"` — binds exactly one symbol.
pub proof fn lemma_namespace_import_single(node: SyntaxNode, ci: int, ni: int)
    requires
        0 <= ci < node.children@.len(),
        node.children@[ci].kind@ == "import_clause"@,
        forall|j: int|
            0 <= j < node.children@.len() && j != ci ==> (#[trigger] node.children@[j].kind)@
                != "import_clause"@,
        0 <= ni < node.children@[ci].children@.len(),
        node.children@[ci].children@[ni].kind@ == "namespace_import"@,
        ident_count(node.children@[ci].children@[ni].children@, 0) == 1,
        forall|j: int|
            0 <= j < node.children@[ci].children@.len() && j != ni ==> (
            #[trigger] node.children@[ci].children@[j].kind)@ != "identifier"@
                && node.children@[ci].children@[j].kind@ != "namespace_import"@
                && node.children@[ci].children@[j].kind@ != "named_imports"@,
    ensures
        match import_of(node) {
            Some(i) => i.is_namespace && i.symbols.len() == 1,
            None => true,
        },
{
    lemma_import_pure_ns(node.children@, 0, ci, ni, import_acc_init());
}

proof fn lemma_import_pure_ns(cs: Seq<SyntaxNode>, from: int, ci: int, ni: int, acc: ImportAcc)
    requires
        0 <= from <= ci < cs.len(),
        cs[ci].kind@ == "import_clause"@,
        forall|j: int|
            from <= j < cs.len() && j != ci ==> (#[trigger] cs[j].kind)@ != "import_clause"@,
        0 <= ni < cs[ci].children@.len(),
        cs[ci].children@[ni].kind@ == "namespace_import"@,
        ident_count(cs[ci].children@[ni].children@, 0) == 1,
        forall|j: int|
            0 <= j < cs[ci].children@.len() && j != ni ==> (
            #[trigger] cs[ci].children@[j].kind)@ != "identifier"@ && cs[ci].children@[j].kind@
                != "namespace_import"@ && cs[ci].children@[j].kind@ != "named_imports"@,
    ensures
        import_acc(cs, from, acc).is_namespace,
        import_acc(cs, from, acc).symbols.len() == acc.symbols.len() + 1,
    decreases cs.len() - from,
{
    broadcast use vstd::string::group_string_axioms;

    reveal_strlit("string");
    reveal_strlit("string_fragment");
    reveal_strlit("import_clause");
    if from == ci {
        assert("string"@.len() == 6);
        assert("string_fragment"@.len() == 15);
        assert("import_clause"@.len() == 13);
        assert(cs[ci].kind@ != "string"@ && cs[ci].kind@ != "string_fragment"@);
        let next = clause_acc(cs[ci].children@, 0, acc);
        lemma_clause_pure_ns(cs[ci].children@, 0, ni, acc);
        lemma_import_acc_flags(cs, from + 1, next);
    } else {
        let c = cs[from];
        let next = if c.kind@ == "string"@ || c.kind@ == "string_fragment"@ {
            ImportAcc { source: specifier_of(c.text@), ..acc }
        } else {
            acc
        };
        lemma_import_pure_ns(cs, from + 1, ci, ni, next);
    }
}

} // verus!
