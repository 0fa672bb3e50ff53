//! Path rules: language tags from file extensions, the hidden-directory
//! filter, external-specifier classification, and the module resolver with
//! its extension and index-file fallbacks.

use vstd::prelude::*;
use vstd::string::*;
use crate::text::{ends_with_str, is_suffix_of, push_char, starts_with_char, str_eq};
use crate::tree::Lang;

verus! {

/// The language tag of a path: TypeScript for `.ts`/`.tsx`, Rust for `.rs`,
/// nothing otherwise.
pub open spec fn lang_of_path(p: Seq<char>) -> Option<Lang> {
    if is_suffix_of(".ts"@, p) || is_suffix_of(".tsx"@, p) {
        Some(Lang::TypeScript)
    } else if is_suffix_of(".rs"@, p) {
        Some(Lang::Rust)
    } else {
        None
    }
}

/// The language a path is processed under, matching `lang_of_path`.
pub fn language_of_path(path: &str) -> (r: Option<Lang>)
    ensures
        r == lang_of_path(path@),
{
    if ends_with_str(path, ".ts") || ends_with_str(path, ".tsx") {
        Some(Lang::TypeScript)
    } else if ends_with_str(path, ".rs") {
        Some(Lang::Rust)
    } else {
        None
    }
}

/// A directory entry pruned by the walker: a dotted name other than `.`
/// itself, or a build-output directory.
pub open spec fn hidden_name(s: Seq<char>) -> bool {
    (s.len() > 0 && s[0] == '.' && s != "."@) || s == "node_modules"@ || s == "target"@ || s
        == "dist"@
}

/// Whether a directory entry's name is pruned, matching `hidden_name`.
pub fn is_hidden_component(name: &str) -> (r: bool)
    ensures
        r == hidden_name(name@),
{
    (starts_with_char(name, '.') && !str_eq(name, ".")) || str_eq(name, "node_modules") || str_eq(
        name,
        "target",
    ) || str_eq(name, "dist")
}

/// An external module specifier: one that starts with neither `.` nor `/`.
pub open spec fn is_external_spec(s: Seq<char>) -> bool {
    !(s.len() > 0 && (s[0] == '.' || s[0] == '/'))
}

/// Whether a specifier names an external package, matching
/// `is_external_spec`.
pub fn is_external_specifier(s: &str) -> (r: bool)
    ensures
        r == is_external_spec(s@),
{
    !(starts_with_char(s, '.') || starts_with_char(s, '/'))
}

/// The index of the last `/` in `p`, if any.
pub open spec fn last_slash(p: Seq<char>) -> Option<int>
    decreases p.len(),
{
    if p.len() == 0 {
        None
    } else if p.last() == '/' {
        Some(p.len() - 1)
    } else {
        last_slash(p.drop_last())
    }
}

/// The directory part of a path: everything before the last `/`; `/` itself
/// for a path in the root, `.` for an empty path, and empty for a bare file
/// name.
pub open spec fn parent_dir(p: Seq<char>) -> Seq<char> {
    match last_slash(p) {
        None => if p.len() == 0 {
            seq!['.']
        } else {
            Seq::empty()
        },
        Some(i) => if i == 0 {
            seq!['/']
        } else {
            p.take(i)
        },
    }
}

/// `dir` and `rel` joined with a single separator; an empty `dir` leaves
/// `rel` as it is.
pub open spec fn join_path(dir: Seq<char>, rel: Seq<char>) -> Seq<char> {
    if dir.len() == 0 {
        rel
    } else if dir.last() == '/' {
        dir + rel
    } else {
        dir + seq!['/'] + rel
    }
}

/// The resolver's primary candidate: the specifier joined onto the importing
/// file's directory.
pub open spec fn resolve_candidate(from_file: Seq<char>, import_source: Seq<char>) -> Seq<char> {
    join_path(parent_dir(from_file), import_source)
}

/// The candidate with the TypeScript extension appended.
pub open spec fn with_ts_ext(c: Seq<char>) -> Seq<char> {
    c + ".ts"@
}

/// The candidate's index file.
pub open spec fn with_index_file(c: Seq<char>) -> Seq<char> {
    join_path(c, "index.ts"@)
}

proof fn lemma_last_slash(p: Seq<char>)
    ensures
        match last_slash(p) {
            None => forall|j: int| 0 <= j < p.len() ==> p[j] != '/',
            Some(i) => 0 <= i < p.len() && p[i] == '/' && forall|j: int|
                i < j < p.len() ==> p[j] != '/',
        },
    decreases p.len(),
{
    if p.len() > 0 && p.last() != '/' {
        lemma_last_slash(p.drop_last());
        match last_slash(p.drop_last()) {
            None => {
                assert forall|j: int| 0 <= j < p.len() implies p[j] != '/' by {
                    if j < p.len() - 1 {
                        assert(p.drop_last()[j] == p[j]);
                    }
                }
            },
            Some(i) => {
                assert(p.drop_last()[i] == p[i]);
                assert forall|j: int| i < j < p.len() implies p[j] != '/' by {
                    if j < p.len() - 1 {
                        assert(p.drop_last()[j] == p[j]);
                    }
                }
            },
        }
    }
}

fn find_last_slash(p: &str) -> (r: Option<usize>)
    ensures
        match r {
            None => last_slash(p@) is None,
            Some(i) => last_slash(p@) == Some(i as int),
        },
{
    proof {
        lemma_last_slash(p@);
    }
    let len = p.unicode_len();
    let mut b: usize = len;
    while b > 0
        invariant
            len == p@.len(),
            b <= len,
            forall|j: int| b <= j < len ==> p@[j] != '/',
            match last_slash(p@) {
                None => forall|j: int| 0 <= j < p@.len() ==> p@[j] != '/',
                Some(i) => 0 <= i < p@.len() && p@[i] == '/' && forall|j: int|
                    i < j < p@.len() ==> p@[j] != '/',
            },
        decreases b,
    {
        if p.get_char(b - 1) == '/' {
            proof {
                if last_slash(p@) is None {
                    assert(p@[b - 1] != '/');
                }
                let i = last_slash(p@)->Some_0;
                if i < b - 1 {
                    assert(p@[b - 1] != '/');
                }
                if i > b - 1 {
                    assert(p@[i] != '/');
                }
            }
            return Some(b - 1);
        }
        b -= 1;
    }
    proof {
        if last_slash(p@) is Some {
            let i = last_slash(p@)->Some_0;
            assert(p@[i] != '/');
        }
    }
    None
}

/// The directory part of a path, matching `parent_dir`.
pub fn parent_dir_of(p: &str) -> (r: String)
    ensures
        r@ == parent_dir(p@),
{
    proof {
        lemma_last_slash(p@);
    }
    let len = p.unicode_len();
    match find_last_slash(p) {
        None => {
            if len == 0 {
                let mut s = String::new();
                push_char(&mut s, '.');
                proof {
                    assert(s@ =~= seq!['.']);
                }
                s
            } else {
                String::new()
            }
        },
        Some(i) => {
            if i == 0 {
                let mut s = String::new();
                push_char(&mut s, '/');
                proof {
                    assert(s@ =~= seq!['/']);
                }
                s
            } else {
                let pre = p.substring_char(0, i);
                proof {
                    assert(p@.subrange(0, i as int) =~= p@.take(i as int));
                }
                pre.to_owned()
            }
        },
    }
}

/// `dir` and `rel` joined, matching `join_path`.
pub fn join_paths(dir: &str, rel: &str) -> (r: String)
    ensures
        r@ == join_path(dir@, rel@),
{
    let dlen = dir.unicode_len();
    if dlen == 0 {
        return rel.to_owned();
    }
    let mut out = dir.to_owned();
    if dir.get_char(dlen - 1) != '/' {
        push_char(&mut out, '/');
        proof {
            assert(dir@.push('/') =~= dir@ + seq!['/']);
        }
    }
    out.append(rel);
    proof {
        if dir@.last() != '/' {
            assert((dir@ + seq!['/']) + rel@ =~= dir@ + seq!['/'] + rel@);
        }
    }
    out
}

/// Probes the file system for a path.
///
/// Relies on `std::path::Path::exists`; the answer depends on the state of
/// the disk, so nothing is promised of it.
#[verifier::external_body]
fn path_exists(p: &str) -> bool {
    std::path::Path::new(p).exists()
}

/// Resolves a relative module specifier against the importing file's
/// directory: the joined candidate when it exists on disk, else the candidate
/// with `.ts` appended, else its `index.ts`, else the joined candidate
/// unchanged. Whichever probe succeeds, the result is one of those three
/// paths.
pub fn resolve_import_path(from_file: &str, import_source: &str) -> (r: String)
    ensures
        r@ == resolve_candidate(from_file@, import_source@) || r@ == with_ts_ext(
            resolve_candidate(from_file@, import_source@),
        ) || r@ == with_index_file(resolve_candidate(from_file@, import_source@)),
{
    let dir = parent_dir_of(from_file);
    let candidate = join_paths(dir.as_str(), import_source);
    if path_exists(candidate.as_str()) {
        return candidate;
    }
    let mut with_ts = candidate.clone();
    with_ts.append(".ts");
    if path_exists(with_ts.as_str()) {
        return with_ts;
    }
    let with_index = join_paths(candidate.as_str(), "index.ts");
    if path_exists(with_index.as_str()) {
        return with_index;
    }
    candidate
}

} // verus!
