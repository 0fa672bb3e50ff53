use repo_index::imports::imports_exports_of_source;
use repo_index::model::SearchResult;
use repo_index::search::{search_in_source, top_results};
use repo_index::skeleton::{repo_map_section, skeleton_of_source};
use repo_index::tree::Lang;

#[test]
fn skeleton_of_exported_function() {
    let content = "export function add(x: number, y: number) { return x+y; }";
    let out = skeleton_of_source(content, Lang::TypeScript);
    assert_eq!(out, "function add(x: number, y: number)\n");
    assert!(!out.contains('{'), "skeleton was {:?}", out);
}

#[test]
fn skeleton_of_rust_items() {
    let content = "struct Point { x: i32, y: i32 }\n\nfn norm(p: &Point) -> i32 { p.x + p.y }\n";
    let out = skeleton_of_source(content, Lang::Rust);
    assert!(out.contains("struct Point"), "skeleton was {:?}", out);
    assert!(out.contains("fn norm(p: &Point) -> i32"), "skeleton was {:?}", out);
    assert!(!out.contains('{'), "skeleton was {:?}", out);
}

#[test]
fn skeleton_indents_nested_declarations() {
    let content = "class Cat {\n  meow() { return 1; }\n}\n";
    let out = skeleton_of_source(content, Lang::TypeScript);
    assert!(out.contains("class Cat"), "skeleton was {:?}", out);
    assert!(out.contains("\n  meow()"), "skeleton was {:?}", out);
}

#[test]
fn skeleton_nests_rust_impl_methods() {
    let content = "impl Point {\n    fn x(&self) -> i32 { self.x }\n}\n";
    let out = skeleton_of_source(content, Lang::Rust);
    assert_eq!(out, "impl Point\n  fn x(&self) -> i32\n");
}

#[test]
fn skeleton_skips_plain_variables() {
    let content = "const x = 1;\n";
    let out = skeleton_of_source(content, Lang::TypeScript);
    assert_eq!(out, "");
}

#[test]
fn repo_map_section_has_header() {
    let out = repo_map_section("a.ts", "function f() { return 0; }", Lang::TypeScript);
    assert!(out.starts_with("\n---\nFile: a.ts\n"), "section was {:?}", out);
    assert!(out.contains("function f()"), "section was {:?}", out);
}

#[test]
fn search_ranks_better_match_first() {
    let mut results: Vec<SearchResult> = Vec::new();
    search_in_source(
        "function getUserName() {}",
        Lang::TypeScript,
        "a.ts",
        "getUserName",
        &mut results,
    );
    search_in_source(
        "function getUserAge() {}",
        Lang::TypeScript,
        "b.ts",
        "getUserName",
        &mut results,
    );
    let top = top_results(results);
    assert!(!top.is_empty(), "no results");
    assert!(top.len() <= 2, "got {} results", top.len());
    assert_eq!(top[0].file, "a.ts");
    assert_eq!(top[0].match_content, "function getUserName()");
    assert_eq!(top[0].line, 1);
    for r in &top {
        assert!(r.score > 60, "score {} for {:?}", r.score, r.match_content);
    }
    for w in top.windows(2) {
        assert!(w[0].score >= w[1].score);
    }
}

#[test]
fn spaces_in_queries_match_literally() {
    let mut results: Vec<SearchResult> = Vec::new();
    search_in_source(
        "function getUserName() {}",
        Lang::TypeScript,
        "a.ts",
        "user name",
        &mut results,
    );
    assert!(results.is_empty(), "results were {:?}", results);
}

#[test]
fn search_returns_at_most_ten() {
    let mut results: Vec<SearchResult> = Vec::new();
    for i in 0..25 {
        results.push(SearchResult {
            file: format!("f{}.ts", i),
            line: 1,
            match_content: String::from("function probe()"),
            score: 61 + (i % 7),
        });
    }
    let top = top_results(results);
    assert_eq!(top.len(), 10);
    for w in top.windows(2) {
        assert!(w[0].score >= w[1].score);
    }
}

#[test]
fn search_keeps_discovery_order_on_ties() {
    let mk = |file: &str, score: i64| SearchResult {
        file: String::from(file),
        line: 1,
        match_content: String::from("sig"),
        score,
    };
    let results = vec![mk("a.ts", 70), mk("b.ts", 90), mk("c.ts", 70), mk("d.ts", 70)];
    let top = top_results(results);
    assert_eq!(top.len(), 4);
    assert_eq!(top[0].file, "b.ts");
    assert_eq!(top[1].file, "a.ts");
    assert_eq!(top[2].file, "c.ts");
    assert_eq!(top[3].file, "d.ts");
}

#[test]
fn imports_of_mixed_clause() {
    let content =
        "import Foo, { bar, baz as qux } from \"./lib\";\nimport * as N from \"util\";\n";
    let ie = imports_exports_of_source(content).expect("parse");
    assert_eq!(ie.imports.len(), 2, "imports were {:?}", ie.imports);
    let first = &ie.imports[0];
    assert_eq!(first.source, "./lib");
    assert_eq!(first.symbols, vec!["Foo".to_string(), "bar".to_string(), "baz".to_string()]);
    assert!(first.is_default);
    assert!(!first.is_namespace);
    let second = &ie.imports[1];
    assert_eq!(second.source, "util");
    assert_eq!(second.symbols, vec!["N".to_string()]);
    assert!(!second.is_default);
    assert!(second.is_namespace);
}

#[test]
fn namespace_import_binds_one_symbol() {
    let content = "import * as util from 'node:util';\n";
    let ie = imports_exports_of_source(content).expect("parse");
    assert_eq!(ie.imports.len(), 1);
    assert!(ie.imports[0].is_namespace);
    assert_eq!(ie.imports[0].symbols.len(), 1);
    assert_eq!(ie.imports[0].symbols[0], "util");
    assert!(!ie.imports[0].source.is_empty());
}

#[test]
fn exports_carry_names_and_kinds() {
    let content = "export function f() {}\nexport class C {}\nexport const v = 1;\nexport interface I { a: number; }\nexport default function d() {}\n";
    let ie = imports_exports_of_source(content).expect("parse");
    assert_eq!(ie.exports.len(), 5, "exports were {:?}", ie.exports);
    for e in &ie.exports {
        assert!(!e.name.is_empty());
        assert!(
            e.kind == "function" || e.kind == "class" || e.kind == "variable"
                || e.kind == "interface",
            "kind was {:?}",
            e.kind
        );
    }
    assert_eq!(ie.exports[0].name, "f");
    assert_eq!(ie.exports[0].kind, "function");
    assert!(!ie.exports[0].is_default);
    assert_eq!(ie.exports[1].name, "C");
    assert_eq!(ie.exports[1].kind, "class");
    assert_eq!(ie.exports[2].name, "v");
    assert_eq!(ie.exports[2].kind, "variable");
    assert_eq!(ie.exports[3].name, "I");
    assert_eq!(ie.exports[3].kind, "interface");
    assert_eq!(ie.exports[4].name, "d");
    assert_eq!(ie.exports[4].kind, "function");
    assert!(ie.exports[4].is_default);
}

#[test]
fn fields_are_searchable_like_skeleton_entries() {
    let mut results: Vec<SearchResult> = Vec::new();
    search_in_source(
        "struct Config { max_depth: u32 }",
        Lang::Rust,
        "a.rs",
        "max_depth",
        &mut results,
    );
    assert_eq!(results.len(), 1, "results were {:?}", results);
    assert!(results[0].score > 60);
    assert_eq!(results[0].match_content, "max_depth: u32");
}

#[test]
fn queries_are_repeatable() {
    let content = "export function twice() { return 2; }\nimport { a } from \"./m\";\n";
    let first = skeleton_of_source(content, Lang::TypeScript);
    let second = skeleton_of_source(content, Lang::TypeScript);
    assert_eq!(first, second);
    let ie1 = imports_exports_of_source(content).expect("parse");
    let ie2 = imports_exports_of_source(content).expect("parse");
    assert_eq!(ie1, ie2);
}
