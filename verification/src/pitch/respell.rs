use super::dissonance::{default_scorer, DissonanceScorer, Scorer};
use super::search::{
    all_candidates_scored, all_combinations_scored, brute_force_enharmonics_search,
    candidate_scores, candidates_of, combination_at, combination_count, combination_scores,
    exhaustive_spec, greedy_choice, greedy_enharmonics_search, greedy_spec, spelled,
};
use super::Pitch;
use crate::exception::{Exception, ExceptionResult};
use crate::key::keysignature::KeySignature;
use crate::key::{pitch_on_fifths, Key, Mode};
use vstd::prelude::*;
use vstd::string::*;

verus! {

/// The fewest pitches for which the search is greedy.
pub const GREEDY_FROM: usize = 5;

/// The pitches of `new`, each marked as inferred or not as the pitch at its
/// place in `old` is.
pub open spec fn with_inferred_of(new: Seq<Pitch>, old: Seq<Pitch>) -> Seq<Pitch> {
    Seq::new(
        new.len(),
        |j: int| Pitch { spelling_is_inferred: old[j].spelling_is_inferred, ..new[j] },
    )
}

/// The pitches that are searched: those given, after the anchor of the key
/// where there is one.
pub open spec fn anchored(pitches: Seq<Pitch>, anchor: Option<Pitch>) -> Seq<Pitch> {
    match anchor {
        Some(tonic) => seq![tonic] + pitches,
        None => pitches,
    }
}

/// What the search finds for a sequence: all combinations are tried for
/// fewer than five pitches, and the greedy search is made from five on.
pub open spec fn search_spec<S: Scorer>(scorer: S, pitches: Seq<Pitch>) -> Option<Seq<Pitch>> {
    if pitches.len() < GREEDY_FROM {
        exhaustive_spec(scorer, pitches)
    } else {
        greedy_spec(scorer, pitches)
    }
}

/// The best spelling of a sequence of pitches: what the search finds for
/// the pitches after the anchor of the key, where there is one; each pitch
/// marked as inferred or not as it was given; without the anchor. `None`
/// where the search fails.
pub open spec fn respell_spec<S: Scorer>(scorer: S, pitches: Seq<Pitch>, anchor: Option<Pitch>) -> Option<
    Seq<Pitch>,
> {
    let old = anchored(pitches, anchor);
    match search_spec(scorer, old) {
        None => None,
        Some(new) => {
            let marked = with_inferred_of(new, old);
            if anchor is Some {
                Some(marked.drop_first())
            } else {
                Some(marked)
            }
        },
    }
}

/// The anchor that a key context gives: the tonic of its major key. The
/// outer `None` is a key without a tonic.
pub open spec fn key_anchor(key_context: Option<KeySignature>) -> Option<Option<Pitch>> {
    match key_context {
        None => Some(None),
        Some(signature) => match pitch_on_fifths(signature.sharps as int) {
            None => None,
            Some(tonic) => Some(Some(tonic)),
        },
    }
}

/// The best spelling of a sequence of pitches by a scorer, after an anchor
/// where one is given.
pub fn respell<S: Scorer>(pitches: &Vec<Pitch>, scorer: &mut S, anchor: Option<Pitch>) -> (r:
    ExceptionResult<Vec<Pitch>>)
    ensures
        r is Ok <==> respell_spec(*old(scorer), pitches@, anchor) is Some,
        r is Ok ==> Some(r->Ok_0@) == respell_spec(*old(scorer), pitches@, anchor),
        r is Ok ==> r->Ok_0@.len() == pitches@.len(),
        forall|s: Seq<Pitch>| #[trigger] final(scorer).score_spec(s) == old(scorer).score_spec(s),
{
    let mut old_pitches: Vec<Pitch> = Vec::new();
    let remove_first: bool = match anchor {
        Some(tonic) => {
            old_pitches.push(tonic);
            true
        },
        None => false,
    };
    let mut i: usize = 0;
    while i < pitches.len()
        invariant
            i <= pitches.len(),
            old_pitches@ == anchored(pitches@.take(i as int), anchor),
        decreases pitches.len() - i,
    {
        old_pitches.push(pitches[i]);
        assert(pitches@.take(i as int).push(pitches@[i as int]) == pitches@.take(i + 1));
        i = i + 1;
    }
    assert(pitches@.take(pitches@.len() as int) == pitches@);
    let mut simplified_pitches = match old_pitches.len() < GREEDY_FROM {
        true => match brute_force_enharmonics_search(&old_pitches, scorer) {
            Ok(found) => found,
            Err(e) => {
                return Err(e);
            },
        },
        false => match greedy_enharmonics_search(&old_pitches, scorer) {
            Ok(found) => found,
            Err(e) => {
                return Err(e);
            },
        },
    };
    let ghost found = simplified_pitches@;
    let mut j: usize = 0;
    while j < simplified_pitches.len()
        invariant
            j <= simplified_pitches.len(),
            simplified_pitches@.len() == found.len(),
            found.len() == old_pitches@.len(),
            forall|m: int|
                0 <= m < j ==> #[trigger] simplified_pitches@[m] == with_inferred_of(
                    found,
                    old_pitches@,
                )[m],
            forall|m: int| j <= m < found.len() ==> #[trigger] simplified_pitches@[m] == found[m],
        decreases simplified_pitches.len() - j,
    {
        let mut new_p = simplified_pitches[j];
        new_p.spelling_is_inferred = old_pitches[j].spelling_is_inferred;
        simplified_pitches.set(j, new_p);
        j = j + 1;
    }
    assert(simplified_pitches@ =~= with_inferred_of(found, old_pitches@));
    if remove_first {
        simplified_pitches.remove(0);
        assert(simplified_pitches@ =~= with_inferred_of(found, old_pitches@).drop_first());
    }
    Ok(simplified_pitches)
}

/// The searches depend on the scorer by its scores alone: two scorers that
/// give every sequence the same score find the same.
pub proof fn lemma_search_by_scores<A: Scorer, B: Scorer>(a: A, b: B, pitches: Seq<Pitch>)
    requires
        forall|s: Seq<Pitch>| #[trigger] a.score_spec(s) == b.score_spec(s),
    ensures
        exhaustive_spec(a, pitches) == exhaustive_spec(b, pitches),
        greedy_spec(a, pitches) == greedy_spec(b, pitches),
        search_spec(a, pitches) == search_spec(b, pitches),
{
    assert(all_combinations_scored(a, pitches) == all_combinations_scored(b, pitches)) by {
        if all_combinations_scored(a, pitches) {
            assert forall|k: int| 0 <= k < combination_count(pitches) implies (
            #[trigger] b.score_spec(combination_at(pitches, k))) is Some by {
                assert(a.score_spec(combination_at(pitches, k)) is Some);
            }
        }
        if all_combinations_scored(b, pitches) {
            assert forall|k: int| 0 <= k < combination_count(pitches) implies (
            #[trigger] a.score_spec(combination_at(pitches, k))) is Some by {
                assert(b.score_spec(combination_at(pitches, k)) is Some);
            }
        }
    }
    assert(combination_scores(a, pitches) =~= combination_scores(b, pitches));
    lemma_greedy_by_scores(a, b, pitches, pitches.len() as int);
}

/// The choice of the greedy search depends on the scorer by its scores
/// alone.
pub proof fn lemma_greedy_by_scores<A: Scorer, B: Scorer>(a: A, b: B, pitches: Seq<Pitch>, n: int)
    requires
        forall|s: Seq<Pitch>| #[trigger] a.score_spec(s) == b.score_spec(s),
    ensures
        greedy_choice(a, pitches, n) == greedy_choice(b, pitches, n),
    decreases n,
{
    if n > 1 {
        lemma_greedy_by_scores(a, b, pitches, n - 1);
        if greedy_choice(a, pitches, n - 1) is Some && candidates_of(pitches[n - 1]) is Some {
            let chosen = greedy_choice(a, pitches, n - 1)->Some_0;
            let spellings = candidates_of(pitches[n - 1])->Some_0;
            let so_far = spelled(pitches, chosen);
            assert(all_candidates_scored(a, so_far, spellings) == all_candidates_scored(
                b,
                so_far,
                spellings,
            )) by {
                if all_candidates_scored(a, so_far, spellings) {
                    assert forall|i: int| 0 <= i < spellings.len() implies (#[trigger] b.score_spec(
                        so_far.push(spellings[i]),
                    )) is Some by {
                        assert(a.score_spec(so_far.push(spellings[i])) is Some);
                    }
                }
                if all_candidates_scored(b, so_far, spellings) {
                    assert forall|i: int| 0 <= i < spellings.len() implies (#[trigger] a.score_spec(
                        so_far.push(spellings[i]),
                    )) is Some by {
                        assert(b.score_spec(so_far.push(spellings[i])) is Some);
                    }
                }
            }
            assert(candidate_scores(a, so_far, spellings) =~= candidate_scores(
                b,
                so_far,
                spellings,
            ));
        }
    }
}

/// The best spelling of a sequence of pitches. `criterion` scores the
/// spellings; without one, the dissonance with all its terms does. With a
/// key context, the tonic of its major key stands before the pitches while
/// they are searched.
pub fn simplify_multiple_enharmonics<S: Scorer>(
    pitches: &Vec<Pitch>,
    criterion: Option<S>,
    key_context: Option<KeySignature>,
) -> (r: ExceptionResult<Vec<Pitch>>)
    ensures
        r is Ok ==> r->Ok_0@.len() == pitches@.len(),
        key_anchor(key_context) is None ==> r is Err && r->Err_0 is Accidental,
        key_anchor(key_context) is Some && criterion is Some ==> {
            let found = respell_spec(criterion->Some_0, pitches@, key_anchor(key_context)->Some_0);
            &&& r is Ok <==> found is Some
            &&& r is Ok ==> Some(r->Ok_0@) == found
        },
        key_anchor(key_context) is Some && criterion is None ==> {
            let found = respell_spec(default_scorer(), pitches@, key_anchor(key_context)->Some_0);
            &&& r is Ok <==> found is Some
            &&& r is Ok ==> Some(r->Ok_0@) == found
        },
{
    proof {
        reveal_strlit("major");
        reveal_strlit("minor");
        assert("major"@[1] != "minor"@[1]);
    }
    let anchor = match key_context {
        Some(key) => match key.as_key("major").tonic() {
            Ok(tonic) => Some(tonic),
            Err(e) => {
                return Err(e);
            },
        },
        None => None,
    };
    match criterion {
        Some(scorer) => {
            let mut scorer = scorer;
            respell(pitches, &mut scorer, anchor)
        },
        None => {
            let mut scorer = DissonanceScorer::new();
            let ghost given = scorer;
            let r = respell(pitches, &mut scorer, anchor);
            proof {
                lemma_search_by_scores(given, default_scorer(), anchored(pitches@, anchor));
            }
            r
        },
    }
}

} // verus!
