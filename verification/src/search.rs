//! The fuzzy ranker: every declaration found by the skeleton traversal is
//! scored against the query; hits above the threshold are kept, stably sorted
//! by descending score, and cut to the top ten.

use vstd::prelude::*;
use vstd::string::*;
use fuzzy_matcher::FuzzyMatcher;
use crate::classify::{
    container_kind, is_container_kind, is_skeleton_decl_kind, skeleton_decl_kind,
};
use crate::model::{SearchResult, SearchResultView};
use crate::sig::{sig_of, signature_of};
use crate::skeleton::next_depth;
use crate::tree::{line_from_row, line_of_row, parse_source, tree_of, Lang, SyntaxNode};

verus! {

/// The score that fuzzy_matcher's skim scorer, with its default
/// configuration, assigns to a candidate against a query.
pub uninterp spec fn skim_score(choice: Seq<char>, pattern: Seq<char>) -> Option<i64>;

/// Scores a candidate string against a query.
///
/// Relies on `fuzzy_matcher::skim::SkimMatcherV2::fuzzy_match` with the
/// default configuration: the score is a deterministic function of the two
/// strings alone, so the result is named `skim_score`.
#[verifier::external_body]
fn fuzzy_score(choice: &str, pattern: &str) -> (r: Option<i64>)
    ensures
        r == skim_score(choice@, pattern@),
{
    fuzzy_matcher::skim::SkimMatcherV2::default().fuzzy_match(choice, pattern)
}

/// The minimum score a hit must exceed.
pub open spec fn score_threshold() -> int {
    60
}

/// The views of a sequence of search results.
pub open spec fn result_views(s: Seq<SearchResult>) -> Seq<SearchResultView> {
    s.map_values(|r: SearchResult| r@)
}

/// The hit a single node contributes: its signature, scored, when it is a
/// declaration of interest and scores above the threshold.
pub open spec fn own_hit(node: SyntaxNode, file: Seq<char>, query: Seq<char>) -> Seq<
    SearchResultView,
> {
    if is_skeleton_decl_kind(node.kind@) {
        match skim_score(sig_of(node.text@), query) {
            Some(sc) => if sc > score_threshold() {
                seq![
                    SearchResultView {
                        file: file,
                        line: line_of_row(node.row as nat),
                        match_content: sig_of(node.text@),
                        score: sc,
                    },
                ]
            } else {
                Seq::empty()
            },
            None => Seq::empty(),
        }
    } else {
        Seq::empty()
    }
}

/// All hits in the subtree rooted at `node`, in traversal order; the walk
/// follows the same depth-and-container rule as the skeleton builder.
pub open spec fn hits_of(node: SyntaxNode, depth: nat, file: Seq<char>, query: Seq<char>) -> Seq<
    SearchResultView,
>
    decreases node, 0int,
{
    let own = own_hit(node, file, query);
    if is_container_kind(node.kind@) || depth == 0 {
        own + hits_seq(
            node.children@,
            0,
            next_depth(depth, is_skeleton_decl_kind(node.kind@)),
            file,
            query,
        )
    } else {
        own
    }
}

/// The concatenated hits of `cs[from..]`.
pub open spec fn hits_seq(
    cs: Seq<SyntaxNode>,
    from: int,
    depth: nat,
    file: Seq<char>,
    query: Seq<char>,
) -> Seq<SearchResultView>
    decreases cs, cs.len() - from,
{
    if from < 0 || from >= cs.len() {
        Seq::empty()
    } else {
        hits_of(cs[from], depth, file, query) + hits_seq(cs, from + 1, depth, file, query)
    }
}

/// Every hit scores above the threshold.
pub proof fn lemma_hits_over_threshold(
    node: SyntaxNode,
    depth: nat,
    file: Seq<char>,
    query: Seq<char>,
)
    ensures
        forall|j: int|
            0 <= j < hits_of(node, depth, file, query).len() ==> hits_of(
                node,
                depth,
                file,
                query,
            )[j].score > score_threshold(),
    decreases node, 0int,
{
    let nd = next_depth(depth, is_skeleton_decl_kind(node.kind@));
    lemma_hits_seq_over_threshold(node.children@, 0, nd, file, query);
    let own = own_hit(node, file, query);
    let rest = hits_seq(node.children@, 0, nd, file, query);
    assert forall|j: int|
        0 <= j < hits_of(node, depth, file, query).len() implies hits_of(
        node,
        depth,
        file,
        query,
    )[j].score > score_threshold() by {
        if is_container_kind(node.kind@) || depth == 0 {
            if j < own.len() {
                assert(hits_of(node, depth, file, query)[j] == own[j]);
            } else {
                assert(hits_of(node, depth, file, query)[j] == rest[j - own.len()]);
            }
        }
    }
}

proof fn lemma_hits_seq_over_threshold(
    cs: Seq<SyntaxNode>,
    from: int,
    depth: nat,
    file: Seq<char>,
    query: Seq<char>,
)
    ensures
        forall|j: int|
            0 <= j < hits_seq(cs, from, depth, file, query).len() ==> hits_seq(
                cs,
                from,
                depth,
                file,
                query,
            )[j].score > score_threshold(),
    decreases cs, cs.len() - from,
{
    if 0 <= from < cs.len() {
        lemma_hits_over_threshold(cs[from], depth, file, query);
        lemma_hits_seq_over_threshold(cs, from + 1, depth, file, query);
        let a = hits_of(cs[from], depth, file, query);
        let b = hits_seq(cs, from + 1, depth, file, query);
        assert forall|j: int|
            0 <= j < hits_seq(cs, from, depth, file, query).len() implies hits_seq(
            cs,
            from,
            depth,
            file,
            query,
        )[j].score > score_threshold() by {
            if j < a.len() {
                assert(hits_seq(cs, from, depth, file, query)[j] == a[j]);
            } else {
                assert(hits_seq(cs, from, depth, file, query)[j] == b[j - a.len()]);
            }
        }
    }
}

/// Walks the subtree rooted at `node` and appends its hits to `results`.
pub fn search_tree(
    node: &SyntaxNode,
    depth: usize,
    file: &str,
    query: &str,
    results: &mut Vec<SearchResult>,
)
    ensures
        result_views(final(results)@) == result_views(old(results)@) + hits_of(
            *node,
            depth as nat,
            file@,
            query@,
        ),
    decreases *node, 0int,
{
    let relevant = skeleton_decl_kind(node.kind.as_str());
    if relevant {
        let sg = signature_of(node.text.as_str());
        match fuzzy_score(sg.as_str(), query) {
            Some(sc) => {
                if sc > 60 {
                    let hit = SearchResult {
                        file: String::from_str(file),
                        line: line_from_row(node.row),
                        match_content: sg,
                        score: sc,
                    };
                    results.push(hit);
                }
            },
            None => {},
        }
    }
    proof {
        assert(result_views(results@) =~= result_views(old(results)@) + own_hit(
            *node,
            file@,
            query@,
        ));
    }
    let descend = container_kind(node.kind.as_str()) || depth == 0;
    if descend {
        let nd = if relevant && depth < usize::MAX {
            depth + 1
        } else {
            depth
        };
        search_children(&node.children, 0, nd, file, query, results);
    }
    proof {
        assert(result_views(results@) =~= result_views(old(results)@) + hits_of(
            *node,
            depth as nat,
            file@,
            query@,
        ));
    }
}

fn search_children(
    cs: &Vec<SyntaxNode>,
    from: usize,
    depth: usize,
    file: &str,
    query: &str,
    results: &mut Vec<SearchResult>,
)
    ensures
        result_views(final(results)@) == result_views(old(results)@) + hits_seq(
            cs@,
            from as int,
            depth as nat,
            file@,
            query@,
        ),
    decreases cs@, cs@.len() - from,
{
    if from >= cs.len() {
        proof {
            assert(result_views(results@) =~= result_views(old(results)@) + hits_seq(
                cs@,
                from as int,
                depth as nat,
                file@,
                query@,
            ));
        }
        return ;
    }
    search_tree(&cs[from], depth, file, query, results);
    search_children(cs, from + 1, depth, file, query, results);
    proof {
        assert(result_views(results@) =~= result_views(old(results)@) + hits_seq(
            cs@,
            from as int,
            depth as nat,
            file@,
            query@,
        ));
    }
}

/// `x` placed into a descending run: after every element scoring at least as
/// much, so that earlier-discovered ties stay first.
pub open spec fn insert_desc(s: Seq<SearchResultView>, x: SearchResultView) -> Seq<
    SearchResultView,
>
    decreases s.len(),
{
    if s.len() == 0 {
        seq![x]
    } else if s[0].score >= x.score {
        seq![s[0]] + insert_desc(s.drop_first(), x)
    } else {
        seq![x] + s
    }
}

/// Stable insertion sort by descending score, keeping discovery order among
/// equal scores.
pub open spec fn sort_desc(s: Seq<SearchResultView>) -> Seq<SearchResultView>
    decreases s.len(),
{
    if s.len() == 0 {
        Seq::empty()
    } else {
        insert_desc(sort_desc(s.drop_last()), s.last())
    }
}

/// Scores never increase along `s`.
pub open spec fn sorted_desc(s: Seq<SearchResultView>) -> bool {
    forall|i: int, j: int| 0 <= i < j < s.len() ==> s[i].score >= s[j].score
}

proof fn lemma_insert_desc_len(s: Seq<SearchResultView>, x: SearchResultView)
    ensures
        insert_desc(s, x).len() == s.len() + 1,
    decreases s.len(),
{
    if s.len() > 0 && s[0].score >= x.score {
        lemma_insert_desc_len(s.drop_first(), x);
    }
}

proof fn lemma_insert_desc_elems(s: Seq<SearchResultView>, x: SearchResultView)
    ensures
        forall|i: int|
            0 <= i < insert_desc(s, x).len() ==> (s.contains(#[trigger] insert_desc(s, x)[i])
                || insert_desc(s, x)[i] == x),
    decreases s.len(),
{
    lemma_insert_desc_len(s, x);
    let r = insert_desc(s, x);
    if s.len() == 0 {
        assert(r[0] == x);
    } else if s[0].score >= x.score {
        lemma_insert_desc_elems(s.drop_first(), x);
        let t = insert_desc(s.drop_first(), x);
        assert forall|i: int| 0 <= i < r.len() implies (s.contains(#[trigger] r[i]) || r[i]
            == x) by {
            if i == 0 {
                assert(r[0] == s[0]);
                assert(s.contains(s[0]));
            } else {
                assert(r[i] == t[i - 1]);
                if s.drop_first().contains(t[i - 1]) {
                    let k = choose|k: int|
                        0 <= k < s.drop_first().len() && s.drop_first()[k] == t[i - 1];
                    assert(s[k + 1] == t[i - 1]);
                    assert(s.contains(r[i]));
                }
            }
        }
    } else {
        assert forall|i: int| 0 <= i < r.len() implies (s.contains(#[trigger] r[i]) || r[i]
            == x) by {
            if i > 0 {
                assert(r[i] == s[i - 1]);
                assert(s.contains(s[i - 1]));
            }
        }
    }
}

proof fn lemma_insert_desc_sorted(s: Seq<SearchResultView>, x: SearchResultView)
    requires
        sorted_desc(s),
    ensures
        sorted_desc(insert_desc(s, x)),
    decreases s.len(),
{
    if s.len() == 0 {
    } else if s[0].score >= x.score {
        assert(sorted_desc(s.drop_first()));
        lemma_insert_desc_sorted(s.drop_first(), x);
        lemma_insert_desc_elems(s.drop_first(), x);
        lemma_insert_desc_len(s.drop_first(), x);
        let r = insert_desc(s, x);
        let t = insert_desc(s.drop_first(), x);
        assert forall|i: int, j: int| 0 <= i < j < r.len() implies r[i].score >= r[j].score by {
            if i == 0 {
                assert(r[j] == t[j - 1]);
                assert(s.drop_first().contains(t[j - 1]) || t[j - 1] == x);
                if s.drop_first().contains(t[j - 1]) {
                    let k = choose|k: int|
                        0 <= k < s.drop_first().len() && s.drop_first()[k] == t[j - 1];
                    assert(s[k + 1] == t[j - 1]);
                    assert(s[0].score >= s[k + 1].score);
                }
            } else {
                assert(r[i] == t[i - 1] && r[j] == t[j - 1]);
            }
        }
    } else {
        let r = insert_desc(s, x);
        assert forall|i: int, j: int| 0 <= i < j < r.len() implies r[i].score >= r[j].score by {
            if i == 0 {
                assert(r[j] == s[j - 1]);
                if j == 1 {
                    assert(x.score > s[0].score);
                } else {
                    assert(s[0].score >= s[j - 1].score);
                }
            } else {
                assert(r[i] == s[i - 1] && r[j] == s[j - 1]);
            }
        }
    }
}

/// The sort keeps length, orders scores descending, and invents no entry.
pub proof fn lemma_sort_desc_shape(s: Seq<SearchResultView>)
    ensures
        sort_desc(s).len() == s.len(),
        sorted_desc(sort_desc(s)),
        forall|i: int| 0 <= i < sort_desc(s).len() ==> s.contains(#[trigger] sort_desc(s)[i]),
    decreases s.len(),
{
    if s.len() > 0 {
        lemma_sort_desc_shape(s.drop_last());
        lemma_insert_desc_len(sort_desc(s.drop_last()), s.last());
        lemma_insert_desc_sorted(sort_desc(s.drop_last()), s.last());
        lemma_insert_desc_elems(sort_desc(s.drop_last()), s.last());
        let t = sort_desc(s.drop_last());
        assert forall|i: int| 0 <= i < sort_desc(s).len() implies s.contains(
            #[trigger] sort_desc(s)[i],
        ) by {
            let e = sort_desc(s)[i];
            assert(insert_desc(t, s.last())[i] == e);
            assert(t.contains(e) || e == s.last());
            if t.contains(e) {
                let k = choose|k: int| 0 <= k < t.len() && t[k] == e;
                assert(s.drop_last().contains(t[k]));
                let m = choose|m: int| 0 <= m < s.drop_last().len() && s.drop_last()[m] == e;
                assert(s[m] == e);
                assert(s.contains(e));
            } else {
                assert(s[s.len() - 1] == e);
                assert(s.contains(e));
            }
        }
    }
}

fn insert_pos(v: &Vec<SearchResult>, score: i64) -> (idx: usize)
    ensures
        idx <= v@.len(),
        forall|j: int| 0 <= j < idx ==> result_views(v@)[j].score >= score,
        idx == v@.len() || result_views(v@)[idx as int].score < score,
{
    let mut idx: usize = 0;
    while idx < v.len()
        invariant
            idx <= v@.len(),
            forall|j: int| 0 <= j < idx ==> result_views(v@)[j].score >= score,
        decreases v@.len() - idx,
    {
        if v[idx].score < score {
            return idx;
        }
        idx += 1;
    }
    idx
}

proof fn lemma_insert_desc_at(s: Seq<SearchResultView>, x: SearchResultView, idx: int)
    requires
        0 <= idx <= s.len(),
        forall|j: int| 0 <= j < idx ==> s[j].score >= x.score,
        idx == s.len() || s[idx].score < x.score,
    ensures
        insert_desc(s, x) == s.insert(idx, x),
    decreases s.len(),
{
    if s.len() == 0 {
        assert(insert_desc(s, x) =~= s.insert(0, x));
    } else if idx == 0 {
        assert(s[0].score < x.score);
        assert(insert_desc(s, x) =~= s.insert(0, x));
    } else {
        assert(s[0].score >= x.score);
        lemma_insert_desc_at(s.drop_first(), x, idx - 1);
        assert(seq![s[0]] + s.drop_first().insert(idx - 1, x) =~= s.insert(idx, x));
    }
}

/// The top of the ranking: `results` stably sorted by descending score and
/// cut to at most ten entries.
pub fn top_results(results: Vec<SearchResult>) -> (r: Vec<SearchResult>)
    ensures
        r@.len() == if results@.len() < 10 {
            results@.len()
        } else {
            10nat
        },
        result_views(r@) == sort_desc(result_views(results@)).take(r@.len() as int),
        sorted_desc(result_views(r@)),
        forall|i: int|
            0 <= i < result_views(r@).len() ==> result_views(results@).contains(
                #[trigger] result_views(r@)[i],
            ),
{
    let ghost orig = results@;
    let mut rest = results;
    let mut sorted: Vec<SearchResult> = Vec::new();
    proof {
        assert(orig.subrange(orig.len() - rest@.len(), orig.len() as int) =~= rest@);
        assert(result_views(orig.take(0)) =~= Seq::<SearchResultView>::empty());
    }
    while rest.len() > 0
        invariant
            rest@.len() <= orig.len(),
            orig.subrange(orig.len() - rest@.len(), orig.len() as int) == rest@,
            result_views(sorted@) == sort_desc(
                result_views(orig.take(orig.len() - rest@.len())),
            ),
            sorted@.len() + rest@.len() == orig.len(),
        decreases rest@.len(),
    {
        let ghost done = orig.take(orig.len() - rest@.len());
        let x = rest.remove(0);
        let idx = insert_pos(&sorted, x.score);
        let ghost sv = result_views(sorted@);
        sorted.insert(idx, x);
        proof {
            let done2 = orig.take(orig.len() - rest@.len());
            assert(done2.drop_last() =~= done);
            assert(done2.last() == x);
            lemma_insert_desc_at(sv, x@, idx as int);
            assert(result_views(sorted@) =~= sv.insert(idx as int, x@));
            assert(result_views(done2) =~= result_views(done).push(x@));
            assert(result_views(done2).drop_last() =~= result_views(done));
            assert(result_views(sorted@) == sort_desc(result_views(done2)));
            assert(orig.subrange(orig.len() - rest@.len(), orig.len() as int) =~= rest@);
        }
    }
    proof {
        assert(orig.take(orig.len() - rest@.len()) =~= orig);
        lemma_sort_desc_shape(result_views(orig));
    }
    let mut r = sorted;
    let ghost full = result_views(r@);
    if r.len() > 10 {
        r.truncate(10);
        proof {
            assert(result_views(r@) =~= full.take(10));
        }
    } else {
        proof {
            assert(result_views(r@) =~= full.take(r@.len() as int));
        }
    }
    proof {
        assert forall|i: int| 0 <= i < result_views(r@).len() implies result_views(
            orig,
        ).contains(#[trigger] result_views(r@)[i]) by {
            assert(result_views(r@)[i] == sort_desc(result_views(orig))[i]);
        }
        assert(sorted_desc(result_views(r@))) by {
            assert(forall|i: int|
                0 <= i < result_views(r@).len() ==> result_views(r@)[i] == full[i]);
        }
    }
    r
}

/// Ranking keeps the threshold: when every collected hit scores above the
/// threshold — as `hits_of` guarantees — so does every ranked result, since
/// the ranking invents no entry.
pub proof fn lemma_ranked_hits_over_threshold(
    input: Seq<SearchResultView>,
    output: Seq<SearchResultView>,
)
    requires
        forall|i: int| 0 <= i < input.len() ==> input[i].score > score_threshold(),
        forall|i: int| 0 <= i < output.len() ==> input.contains(#[trigger] output[i]),
    ensures
        forall|i: int| 0 <= i < output.len() ==> output[i].score > score_threshold(),
{
    assert forall|i: int| 0 <= i < output.len() implies output[i].score > score_threshold() by {
        assert(input.contains(output[i]));
        let k = choose|k: int| 0 <= k < input.len() && input[k] == output[i];
        assert(input[k].score > score_threshold());
    }
}

/// Parses one source text and appends its hits to `results`; a text that does
/// not parse contributes nothing.
pub fn search_in_source(
    content: &str,
    lang: Lang,
    file: &str,
    query: &str,
    results: &mut Vec<SearchResult>,
)
    ensures
        result_views(final(results)@) == result_views(old(results)@) + match tree_of(
            lang,
            content@,
        ) {
            None => Seq::<SearchResultView>::empty(),
            Some(t) => hits_of(t, 0, file@, query@),
        },
{
    match parse_source(content, lang) {
        None => {
            proof {
                assert(result_views(results@) =~= result_views(old(results)@) + Seq::<
                    SearchResultView,
                >::empty());
            }
        },
        Some(t) => {
            search_tree(&t, 0, file, query, results);
        },
    }
}

} // verus!
