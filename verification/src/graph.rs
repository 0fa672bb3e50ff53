//! The dependency-graph builder's per-file pieces: a node carrying a file's
//! exported names, and one edge per import, pointing at the resolved path or
//! the external package.

use vstd::prelude::*;
use vstd::string::*;
use crate::model::{
    DependencyEdge, DependencyEdgeView, DependencyNode, ExportInfo, ImportInfo, ImportInfoView,
};
use crate::paths::{
    is_external_spec, is_external_specifier, resolve_candidate, resolve_import_path, with_index_file,
    with_ts_ext,
};

verus! {

/// The names of a file's exports, in order.
pub fn export_names(exports: &Vec<ExportInfo>) -> (r: Vec<String>)
    ensures
        r.deep_view() == exports@.map_values(|e: ExportInfo| e@.name),
{
    let mut r: Vec<String> = Vec::new();
    let mut i: usize = 0;
    proof {
        assert(r.deep_view() =~= exports@.take(0).map_values(|e: ExportInfo| e@.name));
    }
    while i < exports.len()
        invariant
            i <= exports@.len(),
            r.deep_view() == exports@.take(i as int).map_values(|e: ExportInfo| e@.name),
        decreases exports@.len() - i,
    {
        let ghost before = r.deep_view();
        r.push(exports[i].name.clone());
        proof {
            assert(r.deep_view() =~= before.push(exports@[i as int]@.name));
            assert(exports@.take(i + 1).map_values(|e: ExportInfo| e@.name) =~= exports@.take(
                i as int,
            ).map_values(|e: ExportInfo| e@.name).push(exports@[i as int]@.name));
        }
        i += 1;
    }
    proof {
        assert(exports@.take(exports@.len() as int) =~= exports@);
    }
    r
}

/// The dependency-graph node of one file.
pub fn node_for_file(file: &str, exports: &Vec<ExportInfo>) -> (r: DependencyNode)
    ensures
        r@.file == file@,
        r@.exports == exports@.map_values(|e: ExportInfo| e@.name),
{
    DependencyNode { file: String::from_str(file), exports: export_names(exports) }
}

/// What one edge must say of the import it came from: same origin and
/// symbols; an external specifier kept as the target, a relative one
/// resolved to one of the resolver's three candidate paths.
pub open spec fn edge_ok(e: DependencyEdgeView, file: Seq<char>, iv: ImportInfoView) -> bool {
    &&& e.from == file
    &&& e.symbols == iv.symbols
    &&& e.external == is_external_spec(iv.source)
    &&& (e.external ==> e.to == iv.source)
    &&& (!e.external ==> e.to == resolve_candidate(file, iv.source) || e.to == with_ts_ext(
        resolve_candidate(file, iv.source),
    ) || e.to == with_index_file(resolve_candidate(file, iv.source)))
}

/// One dependency edge per import of a file, in order.
pub fn edges_for_file(file: &str, imports: Vec<ImportInfo>) -> (r: Vec<DependencyEdge>)
    ensures
        r@.len() == imports@.len(),
        forall|i: int| 0 <= i < r@.len() ==> edge_ok(#[trigger] r@[i]@, file@, imports@[i]@),
{
    let ghost orig = imports@;
    let mut rest = imports;
    let mut out: Vec<DependencyEdge> = Vec::new();
    proof {
        assert(orig.subrange(orig.len() - rest@.len(), orig.len() as int) =~= rest@);
    }
    while rest.len() > 0
        invariant
            rest@.len() <= orig.len(),
            orig.subrange(orig.len() - rest@.len(), orig.len() as int) == rest@,
            out@.len() + rest@.len() == orig.len(),
            forall|i: int| 0 <= i < out@.len() ==> edge_ok(#[trigger] out@[i]@, file@, orig[i]@),
        decreases rest@.len(),
    {
        let imp = rest.remove(0);
        proof {
            assert(imp == orig[orig.len() - rest@.len() - 1]);
        }
        let external = is_external_specifier(imp.source.as_str());
        let edge = if external {
            DependencyEdge {
                from: String::from_str(file),
                to: imp.source,
                symbols: imp.symbols,
                external,
            }
        } else {
            let to = resolve_import_path(file, imp.source.as_str());
            DependencyEdge { from: String::from_str(file), to, symbols: imp.symbols, external }
        };
        out.push(edge);
        proof {
            assert(orig.subrange(orig.len() - rest@.len(), orig.len() as int) =~= rest@);
        }
    }
    out
}

} // verus!
