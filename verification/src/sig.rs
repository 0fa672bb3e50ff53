//! Signature and name extraction for declaration nodes: the signature is the
//! node's text up to the first `{`, trimmed; the name is the text of the first
//! identifier-like child, descending one level into variable declarators.

use vstd::prelude::*;
use vstd::string::*;
use crate::text::{
    contains_char, find_char, index_of_first, is_space_char, lemma_index_of_first,
    lemma_strip_ends_subrange, trim_spec, trim_str,
};
use crate::tree::SyntaxNode;
use crate::classify::{is_name_kind, name_kind};
use crate::text::str_eq;

verus! {

/// `text` cut at the first `{`, or whole when it has none.
pub open spec fn brace_cut(text: Seq<char>) -> Seq<char> {
    match index_of_first(text, '{') {
        None => text,
        Some(i) => text.take(i),
    }
}

/// The one-line signature of a declaration: its text up to the first `{`,
/// trimmed of ASCII whitespace.
pub open spec fn sig_of(text: Seq<char>) -> Seq<char> {
    trim_spec(brace_cut(text))
}

/// A signature never contains an opening brace.
pub proof fn lemma_sig_no_brace(text: Seq<char>)
    ensures
        !contains_char(sig_of(text), '{'),
{
    let cut = brace_cut(text);
    lemma_index_of_first(text, '{');
    assert(forall|j: int| 0 <= j < cut.len() ==> cut[j] != '{');
    lemma_strip_ends_subrange(cut, |c: char| is_space_char(c));
    let (a, b) = choose|a: int, b: int|
        0 <= a <= b <= cut.len() && trim_spec(cut) == cut.subrange(a, b);
    assert forall|j: int| 0 <= j < sig_of(text).len() implies sig_of(text)[j] != '{' by {
        assert(sig_of(text)[j] == cut[a + j]);
    }
}

/// Executable signature extraction, matching `sig_of`.
pub fn signature_of(text: &str) -> (r: String)
    ensures
        r@ == sig_of(text@),
{
    match find_char(text, '{') {
        None => trim_str(text),
        Some(i) => {
            proof {
                lemma_index_of_first(text@, '{');
                assert(text@.subrange(0, i as int) =~= text@.take(i as int));
            }
            let cut = text.substring_char(0, i);
            trim_str(cut)
        },
    }
}

/// The text of the first child of identifier kind, from `from` on.
pub open spec fn first_ident_text(cs: Seq<SyntaxNode>, from: int) -> Option<Seq<char>>
    decreases cs.len() - from,
{
    if from < 0 || from >= cs.len() {
        None
    } else if cs[from].kind@ == "identifier"@ {
        Some(cs[from].text@)
    } else {
        first_ident_text(cs, from + 1)
    }
}

/// The declared name found among a declaration's children: the text of the
/// first identifier-like child, or, for a variable declarator child, of its
/// first inner identifier.
pub open spec fn first_name_text(cs: Seq<SyntaxNode>, from: int) -> Option<Seq<char>>
    decreases cs.len() - from,
{
    if from < 0 || from >= cs.len() {
        None
    } else if is_name_kind(cs[from].kind@) {
        Some(cs[from].text@)
    } else if cs[from].kind@ == "variable_declarator"@ {
        match first_ident_text(cs[from].children@, 0) {
            Some(t) => Some(t),
            None => first_name_text(cs, from + 1),
        }
    } else {
        first_name_text(cs, from + 1)
    }
}

/// The declared name of a declaration node, if any.
pub open spec fn name_of_decl(node: SyntaxNode) -> Option<Seq<char>> {
    first_name_text(node.children@, 0)
}

fn first_ident_text_from(cs: &Vec<SyntaxNode>, from: usize) -> (r: Option<String>)
    ensures
        match r {
            None => first_ident_text(cs@, from as int) is None,
            Some(t) => first_ident_text(cs@, from as int) == Some(t@),
        },
    decreases cs.len() - from,
{
    if from >= cs.len() {
        return None;
    }
    let c = &cs[from];
    if str_eq(c.kind.as_str(), "identifier") {
        Some(c.text.clone())
    } else {
        first_ident_text_from(cs, from + 1)
    }
}

fn first_name_text_from(cs: &Vec<SyntaxNode>, from: usize) -> (r: Option<String>)
    ensures
        match r {
            None => first_name_text(cs@, from as int) is None,
            Some(t) => first_name_text(cs@, from as int) == Some(t@),
        },
    decreases cs.len() - from,
{
    if from >= cs.len() {
        return None;
    }
    let c = &cs[from];
    if name_kind(c.kind.as_str()) {
        Some(c.text.clone())
    } else if str_eq(c.kind.as_str(), "variable_declarator") {
        match first_ident_text_from(&c.children, 0) {
            Some(t) => Some(t),
            None => first_name_text_from(cs, from + 1),
        }
    } else {
        first_name_text_from(cs, from + 1)
    }
}

/// The declared name of a declaration node, matching `name_of_decl`.
pub fn extract_name(node: &SyntaxNode) -> (r: Option<String>)
    ensures
        match r {
            None => name_of_decl(*node) is None,
            Some(t) => name_of_decl(*node) == Some(t@),
        },
{
    first_name_text_from(&node.children, 0)
}

} // verus!
