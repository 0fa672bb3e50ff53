//! The reference finder: every identifier-like token equal to the queried
//! name, anywhere in a tree, with its trimmed source line as context and a
//! flag marking the name-position of a declaration.

use vstd::prelude::*;
use vstd::string::*;
use crate::classify::{is_name_kind, name_kind};
use crate::locate::{in_tree, in_tree_seq};
use crate::model::{Reference, ReferenceView};
use crate::text::{line_at, nth_line, str_eq, trim_spec, trim_str};
use crate::tree::{line_from_row, line_of_row, parse_source, ts_tree_of, Lang, SyntaxNode};

verus! {

/// The 0-based column reported for a node, saturating at the `u32` bound.
pub open spec fn col_of(column: nat) -> u32 {
    if column <= u32::MAX {
        column as u32
    } else {
        u32::MAX
    }
}

/// Executable form of `col_of`.
pub fn col_from(column: usize) -> (r: u32)
    ensures
        r == col_of(column as nat),
{
    if column <= u32::MAX as usize {
        column as u32
    } else {
        u32::MAX
    }
}

/// The views of a sequence of references.
pub open spec fn ref_views(s: Seq<Reference>) -> Seq<ReferenceView> {
    s.map_values(|r: Reference| r@)
}

/// Parent kinds in which the name child counts as a definition site.
pub open spec fn is_def_parent_kind(k: Seq<char>) -> bool {
    ||| k == "function_declaration"@
    ||| k == "class_declaration"@
    ||| k == "interface_declaration"@
    ||| k == "variable_declarator"@
    ||| k == "method_definition"@
    ||| k == "property_signature"@
    ||| k == "import_specifier"@
    ||| k == "export_specifier"@
}

fn def_parent_kind(k: &str) -> (r: bool)
    ensures
        r == is_def_parent_kind(k@),
{
    str_eq(k, "function_declaration") || str_eq(k, "class_declaration") || str_eq(
        k,
        "interface_declaration",
    ) || str_eq(k, "variable_declarator") || str_eq(k, "method_definition") || str_eq(
        k,
        "property_signature",
    ) || str_eq(k, "import_specifier") || str_eq(k, "export_specifier")
}

/// The index of the first child of kind `identifier` or `type_identifier`.
pub open spec fn first_name_index(cs: Seq<SyntaxNode>, from: int) -> Option<int>
    decreases cs.len() - from,
{
    if from < 0 || from >= cs.len() {
        None
    } else if cs[from].kind@ == "identifier"@ || cs[from].kind@ == "type_identifier"@ {
        Some(from)
    } else {
        first_name_index(cs, from + 1)
    }
}

fn first_name_index_of(cs: &Vec<SyntaxNode>, from: usize) -> (r: Option<usize>)
    ensures
        match r {
            None => first_name_index(cs@, from as int) is None,
            Some(i) => first_name_index(cs@, from as int) == Some(i as int),
        },
    decreases cs.len() - from,
{
    if from >= cs.len() {
        return None;
    }
    let c = &cs[from];
    if str_eq(c.kind.as_str(), "identifier") || str_eq(c.kind.as_str(), "type_identifier") {
        Some(from)
    } else {
        first_name_index_of(cs, from + 1)
    }
}

/// Whether child `i` of a parent with kind `pk` and children `cs` stands in
/// the name position of a declaration: the parent is a declaration-like kind
/// and the child is its first identifier or type identifier.
pub open spec fn def_context(pk: Seq<char>, cs: Seq<SyntaxNode>, i: int) -> bool {
    is_def_parent_kind(pk) && first_name_index(cs, 0) == Some(i)
}

/// The reference emitted for a single node, when it is an identifier-like
/// token equal to the queried symbol.
pub open spec fn ref_entry(
    c: SyntaxNode,
    is_def: bool,
    symbol: Seq<char>,
    file: Seq<char>,
    content: Seq<char>,
) -> Seq<ReferenceView> {
    if is_name_kind(c.kind@) && c.text@ == symbol {
        seq![
            ReferenceView {
                file: file,
                line: line_of_row(c.row as nat),
                column: col_of(c.column as nat),
                context: trim_spec(nth_line(content, c.row as nat)),
                is_definition: is_def,
            },
        ]
    } else {
        Seq::empty()
    }
}

/// All references strictly below `node`, in pre-order.
pub open spec fn refs_below(
    node: SyntaxNode,
    symbol: Seq<char>,
    file: Seq<char>,
    content: Seq<char>,
) -> Seq<ReferenceView>
    decreases node, 0int,
{
    refs_seq(node.kind@, node.children@, 0, symbol, file, content)
}

/// The references of the children `cs[from..]` of a parent of kind `pk`, each
/// child's own entry first, then its subtree.
pub open spec fn refs_seq(
    pk: Seq<char>,
    cs: Seq<SyntaxNode>,
    from: int,
    symbol: Seq<char>,
    file: Seq<char>,
    content: Seq<char>,
) -> Seq<ReferenceView>
    decreases cs, cs.len() - from,
{
    if from < 0 || from >= cs.len() {
        Seq::empty()
    } else {
        ref_entry(cs[from], def_context(pk, cs, from), symbol, file, content) + refs_below(
            cs[from],
            symbol,
            file,
            content,
        ) + refs_seq(pk, cs, from + 1, symbol, file, content)
    }
}

/// All references in the tree rooted at `root`; the root itself has no parent
/// and so is never a definition site.
pub open spec fn refs_in_tree(
    root: SyntaxNode,
    symbol: Seq<char>,
    file: Seq<char>,
    content: Seq<char>,
) -> Seq<ReferenceView> {
    ref_entry(root, false, symbol, file, content) + refs_below(root, symbol, file, content)
}

fn emit_entry(
    c: &SyntaxNode,
    is_def: bool,
    symbol: &str,
    file: &str,
    content: &str,
    out: &mut Vec<Reference>,
)
    ensures
        ref_views(final(out)@) == ref_views(old(out)@) + ref_entry(
            *c,
            is_def,
            symbol@,
            file@,
            content@,
        ),
{
    if name_kind(c.kind.as_str()) && str_eq(c.text.as_str(), symbol) {
        let line_text = line_at(content, c.row);
        let context = trim_str(line_text.as_str());
        out.push(
            Reference {
                file: String::from_str(file),
                line: line_from_row(c.row),
                column: col_from(c.column),
                context,
                is_definition: is_def,
            },
        );
    }
    proof {
        assert(ref_views(out@) =~= ref_views(old(out)@) + ref_entry(
            *c,
            is_def,
            symbol@,
            file@,
            content@,
        ));
    }
}

fn refs_walk(node: &SyntaxNode, symbol: &str, file: &str, content: &str, out: &mut Vec<Reference>)
    ensures
        ref_views(final(out)@) == ref_views(old(out)@) + refs_below(
            *node,
            symbol@,
            file@,
            content@,
        ),
    decreases *node, 0int,
{
    refs_walk_children(node.kind.as_str(), &node.children, 0, symbol, file, content, out);
}

fn refs_walk_children(
    pk: &str,
    cs: &Vec<SyntaxNode>,
    from: usize,
    symbol: &str,
    file: &str,
    content: &str,
    out: &mut Vec<Reference>,
)
    ensures
        ref_views(final(out)@) == ref_views(old(out)@) + refs_seq(
            pk@,
            cs@,
            from as int,
            symbol@,
            file@,
            content@,
        ),
    decreases cs@, cs@.len() - from,
{
    if from >= cs.len() {
        proof {
            assert(ref_views(out@) =~= ref_views(old(out)@) + refs_seq(
                pk@,
                cs@,
                from as int,
                symbol@,
                file@,
                content@,
            ));
        }
        return ;
    }
    let c = &cs[from];
    let is_def = if def_parent_kind(pk) {
        match first_name_index_of(cs, 0) {
            Some(i) => i == from,
            None => false,
        }
    } else {
        false
    };
    emit_entry(c, is_def, symbol, file, content, out);
    refs_walk(c, symbol, file, content, out);
    refs_walk_children(pk, cs, from + 1, symbol, file, content, out);
    proof {
        assert(ref_views(out@) =~= ref_views(old(out)@) + refs_seq(
            pk@,
            cs@,
            from as int,
            symbol@,
            file@,
            content@,
        ));
    }
}

/// A node whose reported position really marks its text: on the node's line
/// of `content`, the node's text starts at the node's column, and the
/// position fits the reported integer widths.
pub open spec fn position_marks_text(n: SyntaxNode, content: Seq<char>) -> bool {
    let line = nth_line(content, n.row as nat);
    &&& n.row + 1 <= u32::MAX
    &&& n.column <= u32::MAX
    &&& n.column + n.text@.len() <= line.len()
    &&& line.subrange(n.column as int, n.column + n.text@.len()) == n.text@
}

/// A reference whose line and column point at the queried symbol in
/// `content`.
pub open spec fn points_at_symbol(r: ReferenceView, symbol: Seq<char>, content: Seq<char>) -> bool {
    let line = nth_line(content, (r.line - 1) as nat);
    &&& r.line >= 1
    &&& r.column + symbol.len() <= line.len()
    &&& line.subrange(r.column as int, r.column + symbol.len()) == symbol
}

proof fn lemma_entry_points(
    c: SyntaxNode,
    is_def: bool,
    symbol: Seq<char>,
    file: Seq<char>,
    content: Seq<char>,
)
    requires
        is_name_kind(c.kind@) && c.text@ == symbol ==> position_marks_text(c, content),
    ensures
        forall|k: int|
            0 <= k < ref_entry(c, is_def, symbol, file, content).len() ==> points_at_symbol(
                #[trigger] ref_entry(c, is_def, symbol, file, content)[k],
                symbol,
                content,
            ),
{
    if is_name_kind(c.kind@) && c.text@ == symbol {
        let r = ref_entry(c, is_def, symbol, file, content)[0];
        assert(position_marks_text(c, content));
        assert(r.line == line_of_row(c.row as nat));
        assert(r.line == c.row + 1);
        assert((r.line - 1) as nat == c.row as nat);
        assert(r.column == col_of(c.column as nat));
        assert(r.column == c.column);
        assert(points_at_symbol(r, symbol, content));
    }
}

proof fn lemma_refs_below_positions(
    node: SyntaxNode,
    symbol: Seq<char>,
    file: Seq<char>,
    content: Seq<char>,
)
    requires
        forall|n: SyntaxNode|
            in_tree(n, node) && is_name_kind(n.kind@) ==> #[trigger] position_marks_text(
                n,
                content,
            ),
    ensures
        forall|k: int|
            0 <= k < refs_below(node, symbol, file, content).len() ==> points_at_symbol(
                #[trigger] refs_below(node, symbol, file, content)[k],
                symbol,
                content,
            ),
    decreases node, 0int,
{
    assert forall|n: SyntaxNode|
        in_tree_seq(n, node.children@, 0) && is_name_kind(n.kind@) implies #[trigger] position_marks_text(
        n,
        content,
    ) by {
        assert(in_tree(n, node));
    }
    lemma_refs_seq_positions(node.kind@, node.children@, 0, symbol, file, content);
    assert forall|k: int|
        0 <= k < refs_below(node, symbol, file, content).len() implies points_at_symbol(
        #[trigger] refs_below(node, symbol, file, content)[k],
        symbol,
        content,
    ) by {
        assert(refs_below(node, symbol, file, content) == refs_seq(
            node.kind@,
            node.children@,
            0,
            symbol,
            file,
            content,
        ));
        assert(points_at_symbol(
            refs_seq(node.kind@, node.children@, 0, symbol, file, content)[k],
            symbol,
            content,
        ));
    }
}

proof fn lemma_refs_seq_positions(
    pk: Seq<char>,
    cs: Seq<SyntaxNode>,
    from: int,
    symbol: Seq<char>,
    file: Seq<char>,
    content: Seq<char>,
)
    requires
        forall|n: SyntaxNode|
            in_tree_seq(n, cs, from) && is_name_kind(n.kind@) ==> #[trigger] position_marks_text(
                n,
                content,
            ),
    ensures
        forall|k: int|
            0 <= k < refs_seq(pk, cs, from, symbol, file, content).len() ==> points_at_symbol(
                #[trigger] refs_seq(pk, cs, from, symbol, file, content)[k],
                symbol,
                content,
            ),
    decreases cs, cs.len() - from,
{
    if 0 <= from < cs.len() {
        assert(in_tree(cs[from], cs[from]));
        assert(in_tree_seq(cs[from], cs, from));
        if is_name_kind(cs[from].kind@) && cs[from].text@ == symbol {
            assert(position_marks_text(cs[from], content));
        }
        lemma_entry_points(cs[from], def_context(pk, cs, from), symbol, file, content);
        assert forall|n: SyntaxNode|
            in_tree(n, cs[from]) && is_name_kind(n.kind@) implies #[trigger] position_marks_text(
            n,
            content,
        ) by {
            assert(in_tree_seq(n, cs, from));
        }
        lemma_refs_below_positions(cs[from], symbol, file, content);
        assert forall|n: SyntaxNode|
            in_tree_seq(n, cs, from + 1) && is_name_kind(n.kind@) implies #[trigger] position_marks_text(
            n,
            content,
        ) by {
            assert(in_tree_seq(n, cs, from));
        }
        lemma_refs_seq_positions(pk, cs, from + 1, symbol, file, content);
        let e = ref_entry(cs[from], def_context(pk, cs, from), symbol, file, content);
        let bl = refs_below(cs[from], symbol, file, content);
        let tl = refs_seq(pk, cs, from + 1, symbol, file, content);
        assert forall|k: int|
            0 <= k < refs_seq(pk, cs, from, symbol, file, content).len() implies points_at_symbol(
            #[trigger] refs_seq(pk, cs, from, symbol, file, content)[k],
            symbol,
            content,
        ) by {
            let s = refs_seq(pk, cs, from, symbol, file, content);
            if k < e.len() {
                assert(s[k] == e[k]);
            } else if k < e.len() + bl.len() {
                assert(s[k] == bl[k - e.len()]);
            } else {
                assert(s[k] == tl[k - e.len() - bl.len()]);
            }
        }
    }
}

/// Reference positions are faithful: provided every identifier-like node of
/// the tree marks its own text in `content` — which holds of the tree a parse
/// of `content` yields — every reference reported for `symbol`, the
/// definition sites included, has `symbol` standing in `content` at its line
/// and column.
pub proof fn lemma_reference_positions(
    root: SyntaxNode,
    symbol: Seq<char>,
    file: Seq<char>,
    content: Seq<char>,
)
    requires
        forall|n: SyntaxNode|
            in_tree(n, root) && is_name_kind(n.kind@) ==> #[trigger] position_marks_text(
                n,
                content,
            ),
    ensures
        forall|k: int|
            0 <= k < refs_in_tree(root, symbol, file, content).len() ==> points_at_symbol(
                #[trigger] refs_in_tree(root, symbol, file, content)[k],
                symbol,
                content,
            ),
{
    assert(in_tree(root, root));
    if is_name_kind(root.kind@) && root.text@ == symbol {
        assert(position_marks_text(root, content));
    }
    lemma_entry_points(root, false, symbol, file, content);
    lemma_refs_below_positions(root, symbol, file, content);
    let e = ref_entry(root, false, symbol, file, content);
    let bl = refs_below(root, symbol, file, content);
    assert forall|k: int|
        0 <= k < refs_in_tree(root, symbol, file, content).len() implies points_at_symbol(
        #[trigger] refs_in_tree(root, symbol, file, content)[k],
        symbol,
        content,
    ) by {
        let s = refs_in_tree(root, symbol, file, content);
        if k < e.len() {
            assert(s[k] == e[k]);
        } else {
            assert(s[k] == bl[k - e.len()]);
        }
    }
}

/// All references to `symbol` in one TypeScript source text, matching
/// `refs_in_tree`; empty when the text does not parse.
pub fn references_in_source(content: &str, file: &str, symbol: &str) -> (r: Vec<Reference>)
    ensures
        ref_views(r@) == match ts_tree_of(content@) {
            None => Seq::<ReferenceView>::empty(),
            Some(t) => refs_in_tree(t, symbol@, file@, content@),
        },
{
    let mut out: Vec<Reference> = Vec::new();
    proof {
        assert(ref_views(out@) =~= Seq::<ReferenceView>::empty());
    }
    match parse_source(content, Lang::TypeScript) {
        None => out,
        Some(t) => {
            emit_entry(&t, false, symbol, file, content, &mut out);
            refs_walk(&t, symbol, file, content, &mut out);
            proof {
                assert(ref_views(out@) =~= refs_in_tree(
                    ts_tree_of(content@)->Some_0,
                    symbol@,
                    file@,
                    content@,
                ));
            }
            out
        },
    }
}

} // verus!
