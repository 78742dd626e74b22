//! The matcher: best-match selection over scored candidates, with the
//! threshold rule and deterministic first-encountered tie-breaking.
//!
//! Scoring itself is the embedding extractor's job; its similarity values
//! enter here as fixed-point integers, one per (identity, feature vector)
//! candidate, in store encounter order.

use crate::types::{MatchResult, MatchResults};
use vstd::prelude::*;

verus! {

/// The (name, score) pairs of a result sequence.
pub open spec fn models_of(s: Seq<MatchResult>) -> Seq<(Seq<char>, i64)> {
    s.map(|i: int, r: MatchResult| (r.name@, r.score))
}

/// One selection step: a candidate displaces the best so far only when its
/// score strictly exceeds both the best score and the threshold.
pub open spec fn best_step(best: (Seq<char>, i64), cand: (Seq<char>, i64), threshold: i64) -> (
    Seq<char>,
    i64,
) {
    if cand.1 > best.1 && cand.1 > threshold {
        cand
    } else {
        best
    }
}

/// The best match over scored candidates in encounter order, starting from
/// the "Unknown" sentinel with score zero. Equal top scores keep the first
/// one encountered.
pub open spec fn best_fold(cands: Seq<(Seq<char>, i64)>, threshold: i64) -> (Seq<char>, i64)
    decreases cands.len(),
{
    if cands.len() == 0 {
        ("Unknown"@, 0)
    } else {
        best_step(best_fold(cands.drop_last(), threshold), cands.last(), threshold)
    }
}

/// The highest-scoring result of a non-empty sequence, earliest first on
/// ties; the "Unknown" sentinel with score zero for an empty one.
pub open spec fn top_fold(results: Seq<(Seq<char>, i64)>) -> (Seq<char>, i64)
    decreases results.len(),
{
    if results.len() == 0 {
        ("Unknown"@, 0)
    } else if results.len() == 1 {
        results[0]
    } else {
        let prev = top_fold(results.drop_last());
        if results.last().1 > prev.1 {
            results.last()
        } else {
            prev
        }
    }
}

/// Selects the best match among scored candidates: the highest score that
/// strictly exceeds the threshold wins, first encountered on equal scores;
/// when nothing qualifies, the result is the "Unknown" sentinel with score
/// zero. The candidate list is returned unchanged alongside.
pub fn find_best_match(scored: Vec<MatchResult>, threshold: i64) -> (r: MatchResults)
    ensures
        r.results == scored,
        r.best_match.model() == best_fold(models_of(scored@), threshold),
        r.best_match.score > threshold || (r.best_match.name@ == "Unknown"@ && r.best_match.score
            == 0),
{
    proof {
        lemma_best_exceeds_threshold(models_of(scored@), threshold);
    }
    let mut best = MatchResult::new(String::from_str("Unknown"), 0);
    let n = scored.len();
    let mut i: usize = 0;
    while i < n
        invariant
            n == scored@.len(),
            i <= n,
            best.model() == best_fold(models_of(scored@).subrange(0, i as int), threshold),
        decreases n - i,
    {
        if scored[i].score > best.score && scored[i].score > threshold {
            best = scored[i].duplicate();
        }
        proof {
            assert(models_of(scored@).subrange(0, i as int + 1).drop_last() =~= models_of(
                scored@,
            ).subrange(0, i as int));
        }
        i += 1;
    }
    proof {
        assert(models_of(scored@).subrange(0, n as int) =~= models_of(scored@));
    }
    MatchResults { results: scored, best_match: best }
}

/// Per-face matching: one best match for each detected face's scored
/// candidates, in detection order. Matches are independent per face; the
/// same identity may win for several faces.
pub fn run_matches(per_face: &Vec<Vec<MatchResult>>, threshold: i64) -> (r: Vec<MatchResult>)
    ensures
        r@.len() == per_face@.len(),
        forall|i: int|
            0 <= i < r@.len() ==> (#[trigger] r@[i]).model() == best_fold(
                models_of(per_face@[i]@),
                threshold,
            ),
{
    let mut out: Vec<MatchResult> = Vec::new();
    let n = per_face.len();
    let mut i: usize = 0;
    while i < n
        invariant
            n == per_face@.len(),
            i <= n,
            out@.len() == i,
            forall|k: int|
                0 <= k < i ==> (#[trigger] out@[k]).model() == best_fold(
                    models_of(per_face@[k]@),
                    threshold,
                ),
        decreases n - i,
    {
        let scored = copy_results(&per_face[i]);
        let matched = find_best_match(scored, threshold);
        out.push(matched.best_match);
        i += 1;
    }
    out
}

/// The single best result across every detected face of one frame: the
/// highest score wins outright (no threshold here — each per-face result
/// already honoured it), the earliest on ties; the "Unknown" sentinel with
/// score zero when no face was detected.
pub fn best_across_faces(results: &Vec<MatchResult>) -> (r: MatchResult)
    ensures
        r.model() == top_fold(models_of(results@)),
{
    if results.len() == 0 {
        return MatchResult::new(String::from_str("Unknown"), 0);
    }
    let mut best = results[0].duplicate();
    let n = results.len();
    let mut i: usize = 1;
    while i < n
        invariant
            n == results@.len(),
            1 <= i <= n,
            best.model() == top_fold(models_of(results@).subrange(0, i as int)),
        decreases n - i,
    {
        if results[i].score > best.score {
            best = results[i].duplicate();
        }
        proof {
            assert(models_of(results@).subrange(0, i as int + 1).drop_last() =~= models_of(
                results@,
            ).subrange(0, i as int));
        }
        i += 1;
    }
    proof {
        assert(models_of(results@).subrange(0, n as int) =~= models_of(results@));
    }
    best
}

/// A field-for-field copy of a result vector.
fn copy_results(v: &Vec<MatchResult>) -> (r: Vec<MatchResult>)
    ensures
        models_of(r@) =~= models_of(v@),
{
    let mut out: Vec<MatchResult> = Vec::new();
    let n = v.len();
    let mut i: usize = 0;
    while i < n
        invariant
            n == v@.len(),
            i <= n,
            models_of(out@) =~= models_of(v@).subrange(0, i as int),
        decreases n - i,
    {
        let d = v[i].duplicate();
        let ghost out_pre = out@;
        out.push(d);
        proof {
            assert(models_of(out@) =~= models_of(out_pre).push((v@[i as int].name@, v@[i as int].score)));
            assert(models_of(v@).subrange(0, i as int + 1) =~= models_of(v@).subrange(
                0,
                i as int,
            ).push(models_of(v@)[i as int]));
        }
        i += 1;
    }
    out
}

/// The matching threshold rule: the selected best match either is the
/// "Unknown" sentinel with score zero, or its score strictly exceeds the
/// threshold — no named identity is ever returned at or below it.
pub proof fn lemma_best_exceeds_threshold(cands: Seq<(Seq<char>, i64)>, threshold: i64)
    ensures
        best_fold(cands, threshold) == ("Unknown"@, 0i64) || best_fold(cands, threshold).1
            > threshold,
    decreases cands.len(),
{
    if cands.len() > 0 {
        lemma_best_exceeds_threshold(cands.drop_last(), threshold);
    }
}

/// The selected best match never scores below zero, scores at least as high
/// as every qualifying candidate, and is the sentinel or one of the
/// candidates.
pub proof fn lemma_best_is_max(cands: Seq<(Seq<char>, i64)>, threshold: i64)
    ensures
        best_fold(cands, threshold).1 >= 0,
        forall|i: int|
            0 <= i < cands.len() && (#[trigger] cands[i]).1 > threshold ==> best_fold(
                cands,
                threshold,
            ).1 >= cands[i].1,
        best_fold(cands, threshold) == ("Unknown"@, 0i64) || exists|j: int|
            0 <= j < cands.len() && best_fold(cands, threshold) == (#[trigger] cands[j]),
    decreases cands.len(),
{
    if cands.len() > 0 {
        lemma_best_is_max(cands.drop_last(), threshold);
        assert(forall|i: int| 0 <= i < cands.len() - 1 ==> cands.drop_last()[i] == cands[i]);
        let prev = best_fold(cands.drop_last(), threshold);
        if best_fold(cands, threshold) == prev && prev != ("Unknown"@, 0i64) {
            let j = choose|j: int|
                0 <= j < cands.len() - 1 && best_fold(cands.drop_last(), threshold)
                    == cands.drop_last()[j];
            assert(best_fold(cands, threshold) == cands[j]);
        }
        if best_fold(cands, threshold) == cands.last() {
            assert(best_fold(cands, threshold) == cands[cands.len() - 1]);
        }
    }
}

/// A stored feature identical to the query one, scoring at the maximum and
/// above a non-negative threshold, wins: the best match carries exactly that
/// top score, and names one of the candidates that reach it.
pub proof fn lemma_identical_feature_wins(cands: Seq<(Seq<char>, i64)>, threshold: i64, i: int)
    requires
        threshold >= 0,
        0 <= i < cands.len(),
        cands[i].1 > threshold,
        forall|j: int| 0 <= j < cands.len() ==> (#[trigger] cands[j]).1 <= cands[i].1,
    ensures
        best_fold(cands, threshold).1 == cands[i].1,
        exists|j: int|
            0 <= j < cands.len() && best_fold(cands, threshold) == (#[trigger] cands[j])
                && cands[j].1 == cands[i].1,
{
    lemma_best_is_max(cands, threshold);
    assert(best_fold(cands, threshold).1 >= cands[i].1);
    assert(best_fold(cands, threshold) != ("Unknown"@, 0i64));
    let j = choose|j: int| 0 <= j < cands.len() && best_fold(cands, threshold) == cands[j];
    assert(cands[j].1 <= cands[i].1);
}

} // verus!
