use super::dissonance::Scorer;
use super::respell::{anchored, respell_spec, search_spec, with_inferred_of, GREEDY_FROM};
use super::search::{
    all_candidates_scored, all_combinations_scored, all_have_candidates, lemma_few_combinations, candidate_scores, candidate_sizes,
    candidates_of, combination_at, combination_count, combination_scores, exhaustive_spec,
    first_min, greedy_choice, greedy_spec, is_choice_for, lemma_candidates_begin,
    lemma_first_min, lemma_first_min_is_first, lemma_greedy_choice, picks_spelling, spelled,
};
use super::Pitch;
use crate::common::product::{
    is_tuple_of, lemma_first_tuple, lemma_tuple_is_listed, tuple_at, tuple_number,
};
use vstd::prelude::*;

verus! {

/// Where every pitch after the first has spellings, each has at least one.
pub proof fn lemma_sizes_positive(pitches: Seq<Pitch>)
    requires
        pitches.len() >= 1,
        forall|j: int| 1 <= j < pitches.len() ==> (#[trigger] candidates_of(pitches[j])) is Some,
    ensures
        forall|j: int|
            0 <= j < candidate_sizes(pitches).len() ==> #[trigger] candidate_sizes(pitches)[j]
                >= 1,
{
    assert forall|j: int| 0 <= j < candidate_sizes(pitches).len() implies #[trigger] candidate_sizes(
        pitches,
    )[j] >= 1 by {
        assert(candidates_of(pitches[j + 1]) is Some);
        lemma_candidates_begin(pitches[j + 1]);
    }
}

/// Trying all combinations is never worse than the greedy search: where
/// both find a spelling, the score of the exhaustive one is not above the
/// score of the greedy one.
pub proof fn lemma_exhaustive_not_worse<S: Scorer>(scorer: S, pitches: Seq<Pitch>)
    requires
        exhaustive_spec(scorer, pitches) is Some,
        greedy_spec(scorer, pitches) is Some,
    ensures
        scorer.score_spec(exhaustive_spec(scorer, pitches)->Some_0) is Some,
        scorer.score_spec(greedy_spec(scorer, pitches)->Some_0) is Some,
        scorer.score_spec(exhaustive_spec(scorer, pitches)->Some_0)->Some_0 <= scorer.score_spec(
            greedy_spec(scorer, pitches)->Some_0,
        )->Some_0,
{
    let n = pitches.len() as int;
    let sizes = candidate_sizes(pitches);
    let chosen = greedy_choice(scorer, pitches, n)->Some_0;
    lemma_greedy_choice(scorer, pitches, n);
    lemma_sizes_positive(pitches);
    assert(is_tuple_of(chosen, sizes)) by {
        assert forall|j: int| 0 <= j < chosen.len() implies 0 <= #[trigger] chosen[j] < sizes[j] by {
            assert(picks_spelling(pitches, chosen, j));
        }
    }
    lemma_tuple_is_listed(sizes, chosen);
    let at = tuple_number(sizes, chosen);
    assert(combination_at(pitches, at) == spelled(pitches, chosen));
    let scores = combination_scores(scorer, pitches);
    lemma_first_min(scores, combination_count(pitches));
    let best = first_min(scores, combination_count(pitches));
    assert(scorer.score_spec(combination_at(pitches, at)) is Some);
    assert(scorer.score_spec(combination_at(pitches, best)) is Some);
    assert(scores[best] <= scores[at]);
}

/// What the exhaustive search finds scores no more than any combination of
/// the spellings.
pub proof fn lemma_exhaustive_is_least<S: Scorer>(scorer: S, pitches: Seq<Pitch>, k: int)
    requires
        pitches.len() >= 1,
        exhaustive_spec(scorer, pitches) is Some,
        0 <= k < combination_count(pitches),
    ensures
        scorer.score_spec(exhaustive_spec(scorer, pitches)->Some_0) is Some,
        scorer.score_spec(combination_at(pitches, k)) is Some,
        scorer.score_spec(exhaustive_spec(scorer, pitches)->Some_0)->Some_0 <= scorer.score_spec(
            combination_at(pitches, k),
        )->Some_0,
{
    let scores = combination_scores(scorer, pitches);
    lemma_first_min(scores, combination_count(pitches));
    let best = first_min(scores, combination_count(pitches));
    assert(scorer.score_spec(combination_at(pitches, k)) is Some);
    assert(scorer.score_spec(combination_at(pitches, best)) is Some);
    assert(scores[best] <= scores[k]);
}

/// For fewer than five pitches the exhaustive search finds a spelling
/// wherever each pitch after the first has spellings to try and the scorer
/// gives every combination a score: there are never too many combinations.
pub proof fn lemma_exhaustive_succeeds<S: Scorer>(scorer: S, pitches: Seq<Pitch>)
    requires
        pitches.len() < GREEDY_FROM,
        all_have_candidates(pitches),
        all_combinations_scored(scorer, pitches),
    ensures
        exhaustive_spec(scorer, pitches) is Some,
{
    if pitches.len() > 0 {
        lemma_few_combinations(pitches);
    }
}

/// For fewer than five pitches, trying all combinations is never worse than
/// the greedy search: where the greedy search finds a spelling and the
/// scorer gives every combination a score, the exhaustive search finds one
/// too, and its score is not above the score of the greedy one.
pub proof fn lemma_exhaustive_not_worse_for_few<S: Scorer>(scorer: S, pitches: Seq<Pitch>)
    requires
        pitches.len() < GREEDY_FROM,
        greedy_spec(scorer, pitches) is Some,
        all_combinations_scored(scorer, pitches),
    ensures
        exhaustive_spec(scorer, pitches) is Some,
        scorer.score_spec(exhaustive_spec(scorer, pitches)->Some_0) is Some,
        scorer.score_spec(greedy_spec(scorer, pitches)->Some_0) is Some,
        scorer.score_spec(exhaustive_spec(scorer, pitches)->Some_0)->Some_0 <= scorer.score_spec(
            greedy_spec(scorer, pitches)->Some_0,
        )->Some_0,
{
    let n = pitches.len() as int;
    assert(all_have_candidates(pitches)) by {
        assert forall|j: int| 1 <= j < pitches.len() implies (#[trigger] candidates_of(
            pitches[j],
        )) is Some by {
            lemma_greedy_has_candidates(scorer, pitches, n, j);
        }
    }
    lemma_exhaustive_succeeds(scorer, pitches);
    lemma_exhaustive_not_worse(scorer, pitches);
}

/// Where the greedy search has a choice up to pitch `n`, each pitch after
/// the first up to there has spellings to try.
pub proof fn lemma_greedy_has_candidates<S: Scorer>(
    scorer: S,
    pitches: Seq<Pitch>,
    n: int,
    j: int,
)
    requires
        1 <= j < n <= pitches.len(),
        greedy_choice(scorer, pitches, n) is Some,
    ensures
        candidates_of(pitches[j]) is Some,
    decreases n,
{
    if j < n - 1 {
        lemma_greedy_has_candidates(scorer, pitches, n - 1, j);
    }
}

/// Whether no other spelling of a sequence scores less than the sequence:
/// for fewer than five pitches no combination of the spellings does, and
/// from five pitches on, at no pitch does another spelling after the
/// pitches before it.
pub open spec fn is_settled<S: Scorer>(scorer: S, pitches: Seq<Pitch>) -> bool {
    if pitches.len() < GREEDY_FROM {
        forall|k: int|
            0 <= k < combination_count(pitches) ==> scorer.score_spec(pitches)->Some_0 <= (
            #[trigger] scorer.score_spec(combination_at(pitches, k)))->Some_0
    } else {
        forall|n: int, i: int|
            1 <= n < pitches.len() && 0 <= i < candidates_of(pitches[n])->Some_0.len()
                ==> scorer.score_spec(pitches.take(n + 1))->Some_0 <= (#[trigger] scorer.score_spec(
                pitches.take(n).push(candidates_of(pitches[n])->Some_0[i]),
            ))->Some_0
    }
}

/// The first combination of the spellings of a sequence is the sequence.
pub proof fn lemma_first_combination(pitches: Seq<Pitch>)
    requires
        pitches.len() >= 1,
        forall|j: int| 1 <= j < pitches.len() ==> (#[trigger] candidates_of(pitches[j])) is Some,
    ensures
        combination_at(pitches, 0) == pitches,
{
    lemma_sizes_positive(pitches);
    let sizes = candidate_sizes(pitches);
    lemma_first_tuple(sizes);
    let first = combination_at(pitches, 0);
    assert(first.len() == pitches.len());
    assert forall|j: int| 0 <= j < pitches.len() implies first[j] == pitches[j] by {
        if j > 0 {
            assert(tuple_at(sizes, 0)[j - 1] == 0);
            assert(candidates_of(pitches[j]) is Some);
            lemma_candidates_begin(pitches[j]);
        }
    }
    assert(first =~= pitches);
}

/// A sequence for which no combination of the spellings scores less is
/// what trying all combinations finds for it.
pub proof fn lemma_exhaustive_keeps_settled<S: Scorer>(scorer: S, pitches: Seq<Pitch>)
    requires
        exhaustive_spec(scorer, pitches) is Some,
        forall|k: int|
            0 <= k < combination_count(pitches) ==> scorer.score_spec(pitches)->Some_0 <= (
            #[trigger] scorer.score_spec(combination_at(pitches, k)))->Some_0,
    ensures
        exhaustive_spec(scorer, pitches) == Some(pitches),
{
    if pitches.len() == 0 {
        assert(pitches =~= Seq::<Pitch>::empty());
    } else {
        lemma_first_combination(pitches);
        lemma_sizes_positive(pitches);
        crate::common::product::lemma_tuple_count_positive(candidate_sizes(pitches));
        let scores = combination_scores(scorer, pitches);
        assert(scores[0] == scorer.score_spec(pitches)->Some_0);
        assert forall|k: int| 0 <= k < combination_count(pitches) implies scores[0] <= #[trigger] scores[k] by {
            assert(scorer.score_spec(pitches)->Some_0 <= scorer.score_spec(
                combination_at(pitches, k),
            )->Some_0);
        }
        lemma_first_min_is_first(scores, combination_count(pitches));
    }
}

/// The choice of the first spelling everywhere, for the pitches after the
/// first up to pitch `n`.
pub open spec fn first_spellings(n: int) -> Seq<int> {
    Seq::new((n - 1) as nat, |j: int| 0int)
}

/// A sequence in which no pitch has a spelling that scores less after the
/// pitches before it is what the greedy search finds for it, pitch by pitch.
pub proof fn lemma_greedy_keeps_settled_to<S: Scorer>(scorer: S, pitches: Seq<Pitch>, n: int)
    requires
        1 <= n <= pitches.len(),
        greedy_choice(scorer, pitches, n) is Some,
        forall|m: int, i: int|
            1 <= m < pitches.len() && 0 <= i < candidates_of(pitches[m])->Some_0.len()
                ==> scorer.score_spec(pitches.take(m + 1))->Some_0 <= (#[trigger] scorer.score_spec(
                pitches.take(m).push(candidates_of(pitches[m])->Some_0[i]),
            ))->Some_0,
    ensures
        greedy_choice(scorer, pitches, n) == Some(first_spellings(n)),
        spelled(pitches, first_spellings(n)) == pitches.take(n),
    decreases n,
{
    if n <= 1 {
        assert(first_spellings(n) =~= Seq::<int>::empty());
        assert(spelled(pitches, first_spellings(n)) =~= pitches.take(n));
    } else {
        assert(greedy_choice(scorer, pitches, n - 1) is Some);
        lemma_greedy_keeps_settled_to(scorer, pitches, n - 1);
        let chosen = first_spellings(n - 1);
        let so_far = spelled(pitches, chosen);
        assert(so_far == pitches.take(n - 1));
        let spellings = candidates_of(pitches[n - 1])->Some_0;
        lemma_candidates_begin(pitches[n - 1]);
        let scores = candidate_scores(scorer, so_far, spellings);
        assert(so_far.push(spellings[0]) =~= pitches.take(n));
        assert forall|i: int| 0 <= i < spellings.len() implies scores[0] <= #[trigger] scores[i] by {
            assert(scorer.score_spec(pitches.take(n - 1 + 1))->Some_0 <= scorer.score_spec(
                pitches.take(n - 1).push(spellings[i]),
            )->Some_0);
            assert(pitches.take(n - 1 + 1) == pitches.take(n));
        }
        lemma_first_min_is_first(scores, spellings.len() as int);
        assert(chosen.push(0int) =~= first_spellings(n));
        assert(spelled(pitches, first_spellings(n)) =~= pitches.take(n)) by {
            let longer = first_spellings(n);
            assert forall|j: int| 0 <= j < n implies spelled(pitches, longer)[j] == pitches[j] by {
                if j > 0 {
                    lemma_candidates_begin(pitches[j]);
                    if j < n - 1 {
                        assert(so_far[j] == pitches.take(n - 1)[j]);
                        assert(so_far[j] == candidates_of(pitches[j])->Some_0[chosen[j - 1]]);
                    }
                }
            }
        }
    }
}

/// Respelling is idempotent on what is settled: where the respelling of a
/// sequence can be respelled and no other spelling of it scores less, it is
/// respelled to itself.
pub proof fn lemma_respell_idempotent<S: Scorer>(
    scorer: S,
    pitches: Seq<Pitch>,
    anchor: Option<Pitch>,
)
    requires
        respell_spec(scorer, pitches, anchor) is Some,
        respell_spec(scorer, respell_spec(scorer, pitches, anchor)->Some_0, anchor) is Some,
        is_settled(scorer, anchored(respell_spec(scorer, pitches, anchor)->Some_0, anchor)),
    ensures
        respell_spec(scorer, respell_spec(scorer, pitches, anchor)->Some_0, anchor)
            == respell_spec(scorer, pitches, anchor),
{
    let once = respell_spec(scorer, pitches, anchor)->Some_0;
    lemma_settled_is_kept(scorer, once, anchor);
}

/// A sequence of which no other spelling scores less is respelled to
/// itself, where it can be respelled.
pub proof fn lemma_settled_is_kept<S: Scorer>(scorer: S, pitches: Seq<Pitch>, anchor: Option<Pitch>)
    requires
        respell_spec(scorer, pitches, anchor) is Some,
        is_settled(scorer, anchored(pitches, anchor)),
    ensures
        respell_spec(scorer, pitches, anchor) == Some(pitches),
{
    let old = anchored(pitches, anchor);
    if old.len() < GREEDY_FROM {
        lemma_exhaustive_keeps_settled(scorer, old);
    } else {
        lemma_greedy_keeps_settled_to(scorer, old, old.len() as int);
        assert(old.take(old.len() as int) == old);
    }
    assert(search_spec(scorer, old) == Some(old));
    assert(with_inferred_of(old, old) =~= old);
    if anchor is Some {
        assert(old.drop_first() =~= pitches);
    }
}

} // verus!
