//! The declaration classifier: closed tables, keyed by grammar node kind,
//! deciding which nodes are declarations of interest, which are containers
//! whose children are descended into, and which carry a name.

use vstd::prelude::*;
use vstd::string::*;
use crate::text::str_eq;

verus! {

/// Kinds that appear in skeletons and search results: the signature-bearing
/// declarations of both grammars, with Rust field declarations included.
pub open spec fn is_skeleton_decl_kind(k: Seq<char>) -> bool {
    ||| k == "function_declaration"@
    ||| k == "class_declaration"@
    ||| k == "interface_declaration"@
    ||| k == "method_definition"@
    ||| k == "function_item"@
    ||| k == "struct_item"@
    ||| k == "trait_item"@
    ||| k == "impl_item"@
    ||| k == "field_declaration"@
}

/// Kinds that symbol lookup recognises, together with variable declarations;
/// field declarations are skeleton-only and carry no symbol.
pub open spec fn is_symbol_decl_kind(k: Seq<char>) -> bool {
    ||| k == "function_declaration"@
    ||| k == "class_declaration"@
    ||| k == "interface_declaration"@
    ||| k == "method_definition"@
    ||| k == "function_item"@
    ||| k == "struct_item"@
    ||| k == "trait_item"@
    ||| k == "impl_item"@
    ||| k == "lexical_declaration"@
    ||| k == "variable_declaration"@
}

/// The exposed kind label of a symbol declaration.
pub open spec fn symbol_kind_label(k: Seq<char>) -> Seq<char> {
    if k == "function_declaration"@ || k == "function_item"@ {
        "function"@
    } else if k == "class_declaration"@ {
        "class"@
    } else if k == "interface_declaration"@ {
        "interface"@
    } else if k == "method_definition"@ {
        "method"@
    } else if k == "struct_item"@ {
        "struct"@
    } else if k == "trait_item"@ {
        "trait"@
    } else if k == "impl_item"@ {
        "impl"@
    } else {
        "variable"@
    }
}

/// Kinds whose children are descended into below the root.
pub open spec fn is_container_kind(k: Seq<char>) -> bool {
    ||| k == "program"@
    ||| k == "source_file"@
    ||| k == "class_declaration"@
    ||| k == "impl_item"@
    ||| k == "class_body"@
    ||| k == "declaration_list"@
    ||| k == "export_statement"@
    ||| k == "mod_item"@
    ||| k == "struct_item"@
    ||| k == "field_declaration_list"@
}

/// Kinds of name-bearing identifier tokens.
pub open spec fn is_name_kind(k: Seq<char>) -> bool {
    k == "identifier"@ || k == "type_identifier"@ || k == "property_identifier"@
}

/// Executable test for `is_skeleton_decl_kind`.
pub fn skeleton_decl_kind(k: &str) -> (r: bool)
    ensures
        r == is_skeleton_decl_kind(k@),
{
    str_eq(k, "function_declaration") || str_eq(k, "class_declaration") || str_eq(
        k,
        "interface_declaration",
    ) || str_eq(k, "method_definition") || str_eq(k, "function_item") || str_eq(k, "struct_item")
        || str_eq(k, "trait_item") || str_eq(k, "impl_item") || str_eq(k, "field_declaration")
}

/// Executable test for `is_symbol_decl_kind`.
pub fn symbol_decl_kind(k: &str) -> (r: bool)
    ensures
        r == is_symbol_decl_kind(k@),
{
    str_eq(k, "function_declaration") || str_eq(k, "class_declaration") || str_eq(
        k,
        "interface_declaration",
    ) || str_eq(k, "method_definition") || str_eq(k, "function_item") || str_eq(k, "struct_item")
        || str_eq(k, "trait_item") || str_eq(k, "impl_item") || str_eq(k, "lexical_declaration")
        || str_eq(k, "variable_declaration")
}

/// The exposed kind label of a symbol declaration, as a `String`.
pub fn symbol_kind_label_str(k: &str) -> (r: String)
    ensures
        r@ == symbol_kind_label(k@),
{
    if str_eq(k, "function_declaration") || str_eq(k, "function_item") {
        String::from_str("function")
    } else if str_eq(k, "class_declaration") {
        String::from_str("class")
    } else if str_eq(k, "interface_declaration") {
        String::from_str("interface")
    } else if str_eq(k, "method_definition") {
        String::from_str("method")
    } else if str_eq(k, "struct_item") {
        String::from_str("struct")
    } else if str_eq(k, "trait_item") {
        String::from_str("trait")
    } else if str_eq(k, "impl_item") {
        String::from_str("impl")
    } else {
        String::from_str("variable")
    }
}

/// Executable test for `is_container_kind`.
pub fn container_kind(k: &str) -> (r: bool)
    ensures
        r == is_container_kind(k@),
{
    str_eq(k, "program") || str_eq(k, "source_file") || str_eq(k, "class_declaration") || str_eq(
        k,
        "impl_item",
    ) || str_eq(k, "class_body") || str_eq(k, "declaration_list") || str_eq(k, "export_statement")
        || str_eq(k, "mod_item") || str_eq(k, "struct_item") || str_eq(k, "field_declaration_list")
}

/// Executable test for `is_name_kind`.
pub fn name_kind(k: &str) -> (r: bool)
    ensures
        r == is_name_kind(k@),
{
    str_eq(k, "identifier") || str_eq(k, "type_identifier") || str_eq(k, "property_identifier")
}

} // verus!
