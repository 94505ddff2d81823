//! Fuzzy ranking of walked paths against a query set: per-path best score,
//! deduplication, and a deterministic descending order.

use vstd::prelude::*;

use fuzzy_matcher::FuzzyMatcher;

use crate::strutil::{lex_lt, lemma_lex_lt_total, lemma_lex_lt_trans, str_lex_lt};

verus! {

/// One ranked path: its best positive fuzzy score and its root-relative path.
#[derive(Clone, Debug)]
pub struct SearchResult {
    pub score: i64,
    pub path: String,
}

/// What the skim fuzzy matcher, in its default configuration, returns for a
/// choice string and a pattern. The value depends on the two arguments alone.
pub uninterp spec fn skim_score(choice: Seq<char>, pattern: Seq<char>) -> Option<i64>;

/// Relies on fuzzy_matcher's SkimMatcherV2 (default configuration): the score
/// is computed from the two strings alone by a deterministic dynamic program.
#[verifier::external_body]
fn skim_match(choice: &str, pattern: &str) -> (r: Option<i64>)
    ensures
        r == skim_score(choice@, pattern@),
{
    fuzzy_matcher::skim::SkimMatcherV2::default().fuzzy_match(choice, pattern)
}

/// The contribution of one query: its positive score, or zero.
pub open spec fn query_score(rel: Seq<char>, q: Seq<char>) -> int {
    match skim_score(rel, q) {
        Some(s) => if s > 0 {
            s as int
        } else {
            0
        },
        None => 0,
    }
}

/// The best score of a path over all queries; zero when nothing matches.
pub open spec fn best_score(rel: Seq<char>, queries: Seq<Seq<char>>) -> int
    decreases queries.len(),
{
    if queries.len() == 0 {
        0
    } else {
        let rest = best_score(rel, queries.drop_last());
        let s = query_score(rel, queries.last());
        if s > rest {
            s
        } else {
            rest
        }
    }
}

/// Exec: the best score of `rel` over `queries`, clamped to non-negative.
pub fn best_score_exec(rel: &str, queries: &Vec<String>) -> (r: i64)
    ensures
        r as int == best_score(rel@, queries.deep_view()),
        r >= 0,
{
    let ghost dv = queries.deep_view();
    let mut best: i64 = 0;
    let mut i: usize = 0;
    proof {
        assert(dv.take(0) =~= Seq::<Seq<char>>::empty());
    }
    while i < queries.len()
        invariant
            i <= queries@.len(),
            dv == queries.deep_view(),
            dv.len() == queries@.len(),
            forall|k: int| 0 <= k < queries@.len() ==> dv[k] == queries@[k]@,
            best >= 0,
            best as int == best_score(rel@, dv.take(i as int)),
        decreases queries@.len() - i,
    {
        let got = skim_match(rel, queries[i].as_str());
        proof {
            assert(dv.take(i + 1).drop_last() =~= dv.take(i as int));
            assert(dv.take(i + 1).last() == dv[i as int]);
        }
        match got {
            Some(s) => {
                if s > best {
                    best = s;
                }
            },
            None => {},
        }
        i = i + 1;
    }
    proof {
        assert(dv.take(queries@.len() as int) =~= dv);
    }
    best
}

/// The deterministic result order: higher score first, ties by path,
/// lexicographically ascending.
pub open spec fn result_lt(a: SearchResult, b: SearchResult) -> bool {
    a.score > b.score || (a.score == b.score && lex_lt(a.path@, b.path@))
}

/// Two results carry the same score and the same path text.
pub open spec fn same_res(a: SearchResult, b: SearchResult) -> bool {
    a.score == b.score && a.path@ == b.path@
}

pub proof fn lemma_result_lt_trans(a: SearchResult, b: SearchResult, c: SearchResult)
    requires
        result_lt(a, b),
        result_lt(b, c),
    ensures
        result_lt(a, c),
{
    if a.score == b.score && b.score == c.score {
        lemma_lex_lt_trans(a.path@, b.path@, c.path@);
    }
}

pub proof fn lemma_result_lt_total(a: SearchResult, b: SearchResult)
    ensures
        !same_res(a, b) ==> result_lt(a, b) || result_lt(b, a),
        !(result_lt(a, b) && result_lt(b, a)),
{
    lemma_lex_lt_total(a.path@, b.path@);
}

/// Strictly descending order over the whole sequence.
pub open spec fn sorted_strict(r: Seq<SearchResult>) -> bool {
    forall|i: int, j: int| 0 <= i < j < r.len() ==> result_lt(r[i], r[j])
}

/// Exec comparison realizing `result_lt`.
fn result_lt_exec(a: &SearchResult, b: &SearchResult) -> (r: bool)
    ensures
        r == result_lt(*a, *b),
{
    if a.score > b.score {
        true
    } else if a.score == b.score {
        str_lex_lt(a.path.as_str(), b.path.as_str())
    } else {
        false
    }
}

/// Inserts `x` into a strictly sorted vector whose elements all differ
/// from `x`, keeping the order strict.
fn insert_sorted(out: &mut Vec<SearchResult>, x: SearchResult)
    requires
        sorted_strict(old(out)@),
        forall|k: int| 0 <= k < old(out)@.len() ==> !same_res(old(out)@[k], x),
    ensures
        sorted_strict(final(out)@),
        final(out)@.len() == old(out)@.len() + 1,
        forall|m: int|
            #![trigger old(out)@[m]]
            0 <= m < old(out)@.len() ==> exists|k: int|
                #![trigger final(out)@[k]]
                0 <= k < final(out)@.len() && final(out)@[k] == old(out)@[m],
        forall|k: int|
            #![trigger final(out)@[k]]
            0 <= k < final(out)@.len() ==> final(out)@[k] == x || exists|m: int|
                #![trigger old(out)@[m]]
                0 <= m < old(out)@.len() && final(out)@[k] == old(out)@[m],
        exists|k: int| #![trigger final(out)@[k]] 0 <= k < final(out)@.len() && final(out)@[k] == x,
{
    let mut j: usize = 0;
    loop
        invariant
            j <= out@.len(),
            out@ == old(out)@,
            sorted_strict(out@),
            forall|k: int| 0 <= k < out@.len() ==> !same_res(out@[k], x),
            forall|k: int| 0 <= k < j ==> !result_lt(x, out@[k]),
        ensures
            j <= out@.len(),
            out@ == old(out)@,
            forall|k: int| 0 <= k < j ==> !result_lt(x, out@[k]),
            j < out@.len() ==> result_lt(x, out@[j as int]),
        decreases out@.len() - j,
    {
        if j >= out.len() {
            break;
        }
        if result_lt_exec(&x, &out[j]) {
            break;
        }
        j = j + 1;
    }
    proof {
        assert forall|k: int| 0 <= k < j implies result_lt(old(out)@[k], x) by {
            lemma_result_lt_total(old(out)@[k], x);
        }
    }
    out.insert(j, x);
    proof {
        let new = final(out)@;
        let prev = old(out)@;
        assert forall|p: int, q: int| 0 <= p < q < new.len() implies result_lt(
            new[p],
            new[q],
        ) by {
            if q < j {
                assert(new[p] == prev[p] && new[q] == prev[q]);
            } else if p < j && q == j {
                assert(new[p] == prev[p] && new[q] == x);
            } else if p < j && q > j {
                assert(new[p] == prev[p] && new[q] == prev[q - 1]);
            } else if p == j {
                assert(new[p] == x && new[q] == prev[q - 1]);
                if q - 1 > j {
                    assert(result_lt(x, prev[j as int]));
                    assert(result_lt(prev[j as int], prev[q - 1]));
                    lemma_result_lt_trans(x, prev[j as int], prev[q - 1]);
                }
            } else {
                assert(new[p] == prev[p - 1] && new[q] == prev[q - 1]);
            }
        }
        assert forall|m: int| #![trigger prev[m]] 0 <= m < prev.len() implies exists|k: int|
            #![trigger new[k]]
            0 <= k < new.len() && new[k] == prev[m] by {
            if m < j {
                assert(new[m] == prev[m]);
            } else {
                assert(new[m + 1] == prev[m]);
            }
        }
        assert(new[j as int] == x);
    }
}

/// A result list is a ranking of `rels` (candidate relative paths) against
/// `queries` when it is strictly ordered, carries exactly the positive best
/// score of each listed path, lists only candidate paths, and lists every
/// candidate path with a positive best score.
pub open spec fn is_ranking(r: Seq<SearchResult>, rels: Seq<Seq<char>>, queries: Seq<
    Seq<char>,
>) -> bool {
    &&& sorted_strict(r)
    &&& forall|k: int|
        #![trigger r[k]]
        0 <= k < r.len() ==> r[k].score as int == best_score(r[k].path@, queries) && r[k].score
            > 0
    &&& forall|k: int| #![trigger r[k]] 0 <= k < r.len() ==> rels.contains(r[k].path@)
    &&& forall|e: int|
        #![trigger rels[e]]
        0 <= e < rels.len() && best_score(rels[e], queries) > 0 ==> exists|k: int|
            #![trigger r[k]]
            0 <= k < r.len() && r[k].path@ == rels[e]
}

/// Ranks candidate relative paths against the queries: for each distinct
/// path the best positive score is kept, paths without a positive score are
/// dropped, and the rest are ordered by descending score, ties broken by
/// ascending path text.
pub fn rank_paths(rels: &Vec<String>, queries: &Vec<String>) -> (r: Vec<SearchResult>)
    ensures
        is_ranking(r@, rels.deep_view(), queries.deep_view()),
{
    let ghost rv = rels.deep_view();
    let ghost qv = queries.deep_view();
    let mut acc: Vec<SearchResult> = Vec::new();
    let mut e: usize = 0;
    while e < rels.len()
        invariant
            e <= rels@.len(),
            rv == rels.deep_view(),
            qv == queries.deep_view(),
            rv.len() == rels@.len(),
            forall|k: int| 0 <= k < rels@.len() ==> rv[k] == rels@[k]@,
            sorted_strict(acc@),
            forall|k: int|
                0 <= k < acc@.len() ==> acc@[k].score as int == best_score(acc@[k].path@, qv)
                    && acc@[k].score > 0,
            forall|k: int| 0 <= k < acc@.len() ==> rv.contains(acc@[k].path@),
            forall|p: int|
                0 <= p < e && best_score(rv[p], qv) > 0 ==> exists|k: int|
                    0 <= k < acc@.len() && acc@[k].path@ == rv[p],
        decreases rels@.len() - e,
    {
        let s = best_score_exec(rels[e].as_str(), queries);
        if s > 0 {
            let mut seen: bool = false;
            let mut k: usize = 0;
            while k < acc.len()
                invariant
                    k <= acc@.len(),
                    e < rels@.len(),
                    seen ==> exists|m: int|
                        0 <= m < acc@.len() && acc@[m].path@ == rels@[e as int]@,
                    !seen ==> forall|m: int| 0 <= m < k ==> acc@[m].path@ != rels@[e as int]@,
                decreases acc@.len() - k,
            {
                if crate::strutil::str_eq(acc[k].path.as_str(), rels[e].as_str()) {
                    seen = true;
                }
                k = k + 1;
            }
            if !seen {
                let x = SearchResult { score: s, path: rels[e].clone() };
                proof {
                    assert(x.path@ == rv[e as int]);
                    assert forall|m: int| 0 <= m < acc@.len() implies !same_res(
                        acc@[m],
                        x,
                    ) by {
                        assert(acc@[m].path@ != x.path@);
                    }
                    assert(rv.contains(x.path@)) by {
                        assert(rv[e as int] == x.path@);
                    }
                }
                insert_sorted(&mut acc, x);
            }
        }
        e = e + 1;
    }
    acc
}

/// `x` occurs, with the same score and path text, in `r`.
pub open spec fn res_in(x: SearchResult, r: Seq<SearchResult>) -> bool {
    exists|m: int| 0 <= m < r.len() && same_res(x, #[trigger] r[m])
}

/// Every element of `r1` also occurs, with the same score and path text,
/// in `r2`.
pub open spec fn res_subset(r1: Seq<SearchResult>, r2: Seq<SearchResult>) -> bool {
    forall|k: int| 0 <= k < r1.len() ==> res_in(#[trigger] r1[k], r2)
}

/// The head of one strictly sorted sequence does not strictly precede the
/// head of another that contains all its elements.
proof fn lemma_head_not_lt(r1: Seq<SearchResult>, r2: Seq<SearchResult>)
    requires
        sorted_strict(r1),
        sorted_strict(r2),
        res_subset(r1, r2),
        r1.len() > 0,
        r2.len() > 0,
    ensures
        !result_lt(r1[0], r2[0]),
{
    if result_lt(r1[0], r2[0]) {
        assert(res_in(r1[0], r2));
        let m = choose|m: int| 0 <= m < r2.len() && same_res(r1[0], r2[m]);
        if m == 0 {
            assert(r1[0].score == r2[0].score && r1[0].path@ == r2[0].path@);
            lemma_result_lt_total(r1[0], r2[0]);
            assert(result_lt(r2[0], r1[0]));
        } else {
            assert(result_lt(r2[0], r2[m]));
            assert(r2[m].score == r1[0].score && r2[m].path@ == r1[0].path@);
            assert(result_lt(r2[0], r1[0]));
            lemma_result_lt_total(r1[0], r2[0]);
        }
    }
}

/// Two strictly sorted sequences that contain each other's elements agree
/// pointwise, in score and in path text.
proof fn lemma_sorted_agree(r1: Seq<SearchResult>, r2: Seq<SearchResult>)
    requires
        sorted_strict(r1),
        sorted_strict(r2),
        res_subset(r1, r2),
        res_subset(r2, r1),
    ensures
        r1.len() == r2.len(),
        forall|k: int| 0 <= k < r1.len() ==> same_res(r1[k], r2[k]),
    decreases r1.len(),
{
    if r1.len() == 0 {
        assert(r2.len() == 0) by {
            if r2.len() > 0 {
                assert(res_in(r2[0], r1));
            }
        }
    } else if r2.len() == 0 {
        assert(res_in(r1[0], r2));
        let m = choose|m: int| 0 <= m < r2.len() && same_res(r1[0], r2[m]);
        assert(false);
    } else {
        lemma_head_not_lt(r1, r2);
        lemma_head_not_lt(r2, r1);
        lemma_result_lt_total(r1[0], r2[0]);
        assert(same_res(r1[0], r2[0]));
        let t1 = r1.drop_first();
        let t2 = r2.drop_first();
        assert forall|k: int| 0 <= k < t1.len() implies res_in(#[trigger] t1[k], t2) by {
            assert(t1[k] == r1[k + 1]);
            assert(result_lt(r1[0], r1[k + 1]));
            assert(res_in(r1[k + 1], r2));
            let m = choose|m: int| 0 <= m < r2.len() && same_res(r1[k + 1], r2[m]);
            if m == 0 {
                // then r1's head and r1[k + 1] would carry the same score and
                // path text, contradicting the strict order between them
                assert(r1[k + 1].score == r2[0].score && r1[k + 1].path@ == r2[0].path@);
                assert(r1[0].score == r1[k + 1].score && r1[0].path@ == r1[k + 1].path@);
                lemma_result_lt_total(r1[0], r1[k + 1]);
                assert(result_lt(r1[k + 1], r1[0]));
                assert(false);
            }
            assert(t2[m - 1] == r2[m]);
            assert(same_res(t1[k], t2[m - 1]));
        }
        assert forall|k: int| 0 <= k < t2.len() implies res_in(#[trigger] t2[k], t1) by {
            assert(t2[k] == r2[k + 1]);
            assert(result_lt(r2[0], r2[k + 1]));
            assert(res_in(r2[k + 1], r1));
            let m = choose|m: int| 0 <= m < r1.len() && same_res(r2[k + 1], r1[m]);
            if m == 0 {
                assert(r2[k + 1].score == r1[0].score && r2[k + 1].path@ == r1[0].path@);
                assert(r2[0].score == r2[k + 1].score && r2[0].path@ == r2[k + 1].path@);
                lemma_result_lt_total(r2[0], r2[k + 1]);
                assert(result_lt(r2[k + 1], r2[0]));
                assert(false);
            }
            assert(t1[m - 1] == r1[m]);
            assert(same_res(t2[k], t1[m - 1]));
        }
        assert forall|i: int, j: int| 0 <= i < j < t1.len() implies result_lt(t1[i], t1[j]) by {
            assert(t1[i] == r1[i + 1] && t1[j] == r1[j + 1]);
        }
        assert forall|i: int, j: int| 0 <= i < j < t2.len() implies result_lt(t2[i], t2[j]) by {
            assert(t2[i] == r2[i + 1] && t2[j] == r2[j + 1]);
        }
        lemma_sorted_agree(t1, t2);
        assert forall|k: int| 0 <= k < r1.len() implies same_res(r1[k], r2[k]) by {
            if k > 0 {
                assert(same_res(t1[k - 1], t2[k - 1]));
                assert(t1[k - 1] == r1[k]);
                assert(t2[k - 1] == r2[k]);
            }
        }
    }
}

/// Determinism of the ranking: any two rankings of the same candidates
/// against the same queries agree pointwise, in score and in path text.
pub proof fn lemma_ranking_unique(
    r1: Seq<SearchResult>,
    r2: Seq<SearchResult>,
    rels: Seq<Seq<char>>,
    queries: Seq<Seq<char>>,
)
    requires
        is_ranking(r1, rels, queries),
        is_ranking(r2, rels, queries),
    ensures
        r1.len() == r2.len(),
        forall|k: int| 0 <= k < r1.len() ==> same_res(r1[k], r2[k]),
{
    assert forall|k: int| 0 <= k < r1.len() implies res_in(#[trigger] r1[k], r2) by {
        let p = r1[k].path@;
        assert(rels.contains(p));
        let e = choose|e: int| 0 <= e < rels.len() && rels[e] == p;
        assert(rels[e] == p);
        let m = choose|m: int| 0 <= m < r2.len() && r2[m].path@ == rels[e];
        assert(same_res(r1[k], r2[m]));
    }
    assert forall|k: int| 0 <= k < r2.len() implies res_in(#[trigger] r2[k], r1) by {
        let p = r2[k].path@;
        assert(rels.contains(p));
        let e = choose|e: int| 0 <= e < rels.len() && rels[e] == p;
        assert(rels[e] == p);
        let m = choose|m: int| 0 <= m < r1.len() && r1[m].path@ == rels[e];
        assert(same_res(r2[k], r1[m]));
    }
    lemma_sorted_agree(r1, r2);
}

/// A ranking never lists one path twice.
pub proof fn lemma_ranking_paths_distinct(
    r: Seq<SearchResult>,
    rels: Seq<Seq<char>>,
    queries: Seq<Seq<char>>,
)
    requires
        is_ranking(r, rels, queries),
    ensures
        forall|i: int, j: int| 0 <= i < j < r.len() ==> r[i].path@ != r[j].path@,
{
    assert forall|i: int, j: int| 0 <= i < j < r.len() implies r[i].path@ != r[j].path@ by {
        if r[i].path@ == r[j].path@ {
            assert(r[i].score == r[j].score);
            assert(result_lt(r[i], r[j]));
            lemma_result_lt_total(r[i], r[j]);
        }
    }
}

} // verus!
