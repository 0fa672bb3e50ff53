//! The skeleton builder: a depth-tracked pre-order walk that emits one
//! indented signature line per declaration of interest. At indentation depth 0
//! every child is visited; deeper down only containers are descended into.

use vstd::prelude::*;
use vstd::string::*;
use crate::classify::{
    container_kind, is_container_kind, is_skeleton_decl_kind, skeleton_decl_kind,
};
use crate::sig::{lemma_sig_no_brace, sig_of, signature_of};
use crate::text::{contains_char, push_char};
use crate::tree::{tree_of, Lang, SyntaxNode};

verus! {

/// Two spaces per indentation level.
pub open spec fn indent_spec(depth: nat) -> Seq<char> {
    Seq::new(2 * depth, |i: int| ' ')
}

/// The indentation depth below a node: one deeper inside a declaration,
/// saturating at the machine bound.
pub open spec fn next_depth(depth: nat, relevant: bool) -> nat {
    if relevant && depth < usize::MAX as nat {
        (depth + 1) as nat
    } else {
        depth
    }
}

/// The skeleton line a declaration node contributes, or nothing.
pub open spec fn own_line(node: SyntaxNode, depth: nat) -> Seq<char> {
    if is_skeleton_decl_kind(node.kind@) {
        indent_spec(depth) + sig_of(node.text@) + seq!['\n']
    } else {
        Seq::empty()
    }
}

/// The skeleton of the subtree rooted at `node`, at the given indentation
/// depth: the node's own line, followed by its children's skeletons when the
/// node is a container or stands at depth 0.
pub open spec fn skeleton_of(node: SyntaxNode, depth: nat) -> Seq<char>
    decreases node, 0int,
{
    let own = own_line(node, depth);
    if is_container_kind(node.kind@) || depth == 0 {
        own + skeleton_seq(
            node.children@,
            0,
            next_depth(depth, is_skeleton_decl_kind(node.kind@)),
        )
    } else {
        own
    }
}

/// The concatenated skeletons of `cs[from..]`.
pub open spec fn skeleton_seq(cs: Seq<SyntaxNode>, from: int, depth: nat) -> Seq<char>
    decreases cs, cs.len() - from,
{
    if from < 0 || from >= cs.len() {
        Seq::empty()
    } else {
        skeleton_of(cs[from], depth) + skeleton_seq(cs, from + 1, depth)
    }
}

fn indent(depth: usize) -> (r: String)
    ensures
        r@ == indent_spec(depth as nat),
{
    let mut s = String::new();
    let mut i: usize = 0;
    while i < depth
        invariant
            i <= depth,
            s@.len() == 2 * i,
            forall|j: int| 0 <= j < s@.len() ==> s@[j] == ' ',
        decreases depth - i,
    {
        push_char(&mut s, ' ');
        push_char(&mut s, ' ');
        i += 1;
    }
    proof {
        assert(s@ =~= indent_spec(depth as nat));
    }
    s
}

/// The skeleton of the subtree rooted at `node`, matching `skeleton_of`.
pub fn skeleton_of_tree(node: &SyntaxNode, depth: usize) -> (out: String)
    ensures
        out@ == skeleton_of(*node, depth as nat),
    decreases *node, 0int,
{
    let mut out = String::new();
    let relevant = skeleton_decl_kind(node.kind.as_str());
    if relevant {
        let ind = indent(depth);
        out.append(ind.as_str());
        let s = signature_of(node.text.as_str());
        out.append(s.as_str());
        push_char(&mut out, '\n');
    }
    let descend = container_kind(node.kind.as_str()) || depth == 0;
    if descend {
        let nd = if relevant && depth < usize::MAX {
            depth + 1
        } else {
            depth
        };
        let rest = skeleton_children(&node.children, 0, nd);
        out.append(rest.as_str());
    }
    proof {
        assert(out@ =~= skeleton_of(*node, depth as nat));
    }
    out
}

fn skeleton_children(cs: &Vec<SyntaxNode>, from: usize, depth: usize) -> (out: String)
    ensures
        out@ == skeleton_seq(cs@, from as int, depth as nat),
    decreases cs@, cs@.len() - from,
{
    if from >= cs.len() {
        return String::new();
    }
    let mut out = skeleton_of_tree(&cs[from], depth);
    let rest = skeleton_children(cs, from + 1, depth);
    out.append(rest.as_str());
    out
}

/// The header line introducing one file in the repository map.
pub open spec fn map_header(path: Seq<char>) -> Seq<char> {
    "\n---\nFile: "@ + path + seq!['\n']
}

/// The repository-map section of one file: its header, then its skeleton
/// (empty when the file does not parse).
pub open spec fn map_section(path: Seq<char>, content: Seq<char>, lang: Lang) -> Seq<char> {
    map_header(path) + match tree_of(lang, content) {
        None => Seq::<char>::empty(),
        Some(t) => skeleton_of(t, 0),
    }
}

/// The skeleton of one source text, parsed under `lang`; empty when the text
/// does not parse.
pub fn skeleton_of_source(content: &str, lang: Lang) -> (r: String)
    ensures
        r@ == match tree_of(lang, content@) {
            None => Seq::<char>::empty(),
            Some(t) => skeleton_of(t, 0),
        },
{
    match crate::tree::parse_source(content, lang) {
        None => String::new(),
        Some(t) => skeleton_of_tree(&t, 0),
    }
}

/// One file's contribution to the repository map, matching `map_section`.
pub fn repo_map_section(path: &str, content: &str, lang: Lang) -> (r: String)
    ensures
        r@ == map_section(path@, content@, lang),
{
    let mut out = String::from_str("\n---\nFile: ");
    out.append(path);
    push_char(&mut out, '\n');
    let skel = skeleton_of_source(content, lang);
    out.append(skel.as_str());
    proof {
        assert(out@ =~= map_section(path@, content@, lang));
    }
    out
}

/// No skeleton ever contains an opening brace: every emitted signature was
/// cut before its body.
pub proof fn lemma_skeleton_no_brace(node: SyntaxNode, depth: nat)
    ensures
        !contains_char(skeleton_of(node, depth), '{'),
    decreases node, 0int,
{
    lemma_sig_no_brace(node.text@);
    lemma_skeleton_seq_no_brace(
        node.children@,
        0,
        next_depth(depth, is_skeleton_decl_kind(node.kind@)),
    );
    let own = own_line(node, depth);
    assert forall|j: int| 0 <= j < own.len() implies own[j] != '{' by {
        if is_skeleton_decl_kind(node.kind@) {
            let ind = indent_spec(depth);
            let sg = sig_of(node.text@);
            if j < ind.len() {
                assert(own[j] == ' ');
            } else if j < ind.len() + sg.len() {
                assert(own[j] == sg[j - ind.len()]);
                assert(!contains_char(sg, '{'));
            } else {
                assert(own[j] == '\n');
            }
        }
    }
    assert forall|j: int| 0 <= j < skeleton_of(node, depth).len() implies skeleton_of(
        node,
        depth,
    )[j] != '{' by {
        let s = skeleton_of(node, depth);
        if is_container_kind(node.kind@) || depth == 0 {
            let rest = skeleton_seq(
                node.children@,
                0,
                next_depth(depth, is_skeleton_decl_kind(node.kind@)),
            );
            if j < own.len() {
                assert(s[j] == own[j]);
            } else {
                assert(s[j] == rest[j - own.len()]);
                assert(!contains_char(rest, '{'));
            }
        }
    }
}

proof fn lemma_skeleton_seq_no_brace(cs: Seq<SyntaxNode>, from: int, depth: nat)
    ensures
        !contains_char(skeleton_seq(cs, from, depth), '{'),
    decreases cs, cs.len() - from,
{
    if 0 <= from < cs.len() {
        lemma_skeleton_no_brace(cs[from], depth);
        lemma_skeleton_seq_no_brace(cs, from + 1, depth);
        let a = skeleton_of(cs[from], depth);
        let b = skeleton_seq(cs, from + 1, depth);
        assert forall|j: int| 0 <= j < skeleton_seq(cs, from, depth).len() implies skeleton_seq(
            cs,
            from,
            depth,
        )[j] != '{' by {
            if j < a.len() {
                assert(skeleton_seq(cs, from, depth)[j] == a[j]);
                assert(!contains_char(a, '{'));
            } else {
                assert(skeleton_seq(cs, from, depth)[j] == b[j - a.len()]);
                assert(!contains_char(b, '{'));
            }
        }
    }
}

} // verus!
