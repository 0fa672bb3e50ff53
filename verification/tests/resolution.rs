use repo_index::graph::{edges_for_file, node_for_file};
use repo_index::imports::imports_exports_of_source;
use repo_index::locate::{
    external_location, fallback_location, locate_imported, location_of_info, match_import,
    symbol_info_of_source,
};
use repo_index::paths::{
    is_external_specifier, is_hidden_component, language_of_path, resolve_import_path,
};
use repo_index::refs::references_in_source;
use repo_index::tree::Lang;

#[test]
fn symbol_info_finds_local_function() {
    let content = "const pad = 1;\n\nfunction add(x, y) { return x + y; }\n";
    let info = symbol_info_of_source(content, Lang::TypeScript, "add", "b.ts").expect("found");
    assert_eq!(info.name, "add");
    assert_eq!(info.kind, "function");
    assert_eq!(info.line, 3);
    assert_eq!(info.file, "b.ts");
    assert_eq!(info.signature, "function add(x, y)");
}

#[test]
fn symbol_info_misses_unknown_name() {
    let content = "function add(x, y) { return x + y; }\n";
    assert!(symbol_info_of_source(content, Lang::TypeScript, "mul", "b.ts").is_none());
}

#[test]
fn local_symbol_resolves_to_its_declaration() {
    let content = "export function add(x, y) { return x + y; }\n";
    let info = symbol_info_of_source(content, Lang::TypeScript, "add", "a.ts").expect("found");
    let line = info.line;
    let loc = location_of_info(info);
    assert_eq!(loc.file, "a.ts");
    assert_eq!(loc.line, line);
    assert_eq!(loc.line, 1);
    assert_eq!(loc.column, 0);
    assert_eq!(loc.kind, "function");
    assert!(!loc.external);
    assert!(loc.package.is_none());
}

#[test]
fn external_import_resolves_to_package() {
    let content = "import { readFileSync } from \"fs\";\n";
    let ie = imports_exports_of_source(content).expect("parse");
    let idx = match_import(&ie.imports, "readFileSync").expect("matched");
    let imp = &ie.imports[idx];
    assert!(is_external_specifier(imp.source.as_str()));
    let loc = external_location(imp.source.clone());
    assert_eq!(loc.file, "");
    assert_eq!(loc.line, 0);
    assert_eq!(loc.kind, "import");
    assert!(loc.external);
    assert_eq!(loc.package.as_deref(), Some("fs"));
}

#[test]
fn imported_symbol_found_in_target_source() {
    let target = "export function add(x, y) { return x + y; }\n";
    let loc = locate_imported(target, String::from("b.ts"), "add");
    assert_eq!(loc.file, "b.ts");
    assert_eq!(loc.line, 1);
    assert_eq!(loc.kind, "function");
    assert!(!loc.external);
    assert!(loc.package.is_none());
}

#[test]
fn missing_target_symbol_falls_back_to_import_record() {
    let target = "export const unrelated = 1;\n";
    let loc = locate_imported(target, String::from("b.ts"), "add");
    assert_eq!(loc.file, "b.ts");
    assert_eq!(loc.line, 0);
    assert_eq!(loc.kind, "import");
    assert!(!loc.external);
    let fb = fallback_location(String::from("b.ts"));
    assert_eq!(loc, fb);
}

#[test]
fn match_import_skips_unrelated_imports() {
    let content = "import { a } from \"./one\";\nimport { b, c } from \"./two\";\n";
    let ie = imports_exports_of_source(content).expect("parse");
    assert_eq!(match_import(&ie.imports, "c"), Some(1));
    assert_eq!(match_import(&ie.imports, "a"), Some(0));
    assert_eq!(match_import(&ie.imports, "missing"), None);
}

#[test]
fn resolver_keeps_unresolvable_candidate() {
    let resolved = resolve_import_path("zz_no_such_dir/a.ts", "./b");
    assert_eq!(resolved, "zz_no_such_dir/./b");
}

#[test]
fn resolver_uses_dot_for_empty_parent() {
    let resolved = resolve_import_path("a.ts", "./b");
    assert_eq!(resolved, "./b");
}

#[test]
fn language_tags_follow_extensions() {
    assert_eq!(language_of_path("x/a.ts"), Some(Lang::TypeScript));
    assert_eq!(language_of_path("x/a.tsx"), Some(Lang::TypeScript));
    assert_eq!(language_of_path("x/a.rs"), Some(Lang::Rust));
    assert_eq!(language_of_path("x/a.md"), None);
    assert_eq!(language_of_path("x/ats"), None);
}

#[test]
fn hidden_entries_are_pruned() {
    assert!(is_hidden_component(".git"));
    assert!(is_hidden_component("node_modules"));
    assert!(is_hidden_component("target"));
    assert!(is_hidden_component("dist"));
    assert!(!is_hidden_component("."));
    assert!(!is_hidden_component("src"));
    assert!(!is_hidden_component("distx"));
}

#[test]
fn external_specifier_test_checks_first_character() {
    assert!(is_external_specifier("lodash"));
    assert!(is_external_specifier("node:util"));
    assert!(!is_external_specifier("./lib"));
    assert!(!is_external_specifier("/abs/path"));
}

#[test]
fn references_classify_definition_and_use() {
    let content = "function foo() {}\nfoo();\n";
    let refs = references_in_source(content, "a.ts", "foo");
    assert_eq!(refs.len(), 2, "refs were {:?}", refs);
    let def = &refs[0];
    assert_eq!(def.line, 1);
    assert_eq!(def.column, 9);
    assert!(def.is_definition);
    assert_eq!(def.context, "function foo() {}");
    assert_eq!(def.file, "a.ts");
    let use_ref = &refs[1];
    assert_eq!(use_ref.line, 2);
    assert_eq!(use_ref.column, 0);
    assert!(!use_ref.is_definition);
    assert_eq!(use_ref.context, "foo();");
}

#[test]
fn definition_position_points_at_symbol_text() {
    let content = "function foo() {}\nfoo();\n";
    let refs = references_in_source(content, "a.ts", "foo");
    for r in &refs {
        if r.is_definition {
            let line = content.lines().nth((r.line - 1) as usize).expect("line");
            let col = r.column as usize;
            assert_eq!(&line[col..col + 3], "foo");
        }
    }
}

#[test]
fn graph_pieces_for_two_imports() {
    let content_a = "import { x } from \"./b\";\nimport _ from \"lodash\";\n";
    let ie_a = imports_exports_of_source(content_a).expect("parse");
    let node_a = node_for_file("zz_no_such_dir/a.ts", &ie_a.exports);
    assert_eq!(node_a.file, "zz_no_such_dir/a.ts");
    assert!(node_a.exports.is_empty());
    let edges = edges_for_file("zz_no_such_dir/a.ts", ie_a.imports);
    assert_eq!(edges.len(), 2);
    assert_eq!(edges[0].from, "zz_no_such_dir/a.ts");
    assert_eq!(edges[0].to, "zz_no_such_dir/./b");
    assert!(!edges[0].external);
    assert_eq!(edges[0].symbols, vec!["x".to_string()]);
    assert_eq!(edges[1].to, "lodash");
    assert!(edges[1].external);
    assert_eq!(edges[1].symbols, vec!["_".to_string()]);

    let content_b = "export const x = 1;\n";
    let ie_b = imports_exports_of_source(content_b).expect("parse");
    let node_b = node_for_file("zz_no_such_dir/b.ts", &ie_b.exports);
    assert_eq!(node_b.exports, vec!["x".to_string()]);
}

#[test]
fn empty_specifier_import_is_dropped() {
    let content = "import Foo from \"\";\n";
    let ie = imports_exports_of_source(content).expect("parse");
    assert!(ie.imports.is_empty(), "imports were {:?}", ie.imports);
}
