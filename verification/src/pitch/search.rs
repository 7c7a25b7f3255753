use super::dissonance::{Score, Scorer};
use super::enharmonics::common_enharmonics;
use super::Pitch;
use crate::common::product::{
    as_ints, index_combinations, is_tuple_of, lemma_first_tuple, lemma_tuple_at_is_tuple,
    lemma_tuple_count_positive, tuple_at, tuple_count, MAX_COMBINATIONS,
};
use crate::defaults::IntegerType;
use crate::exception::{Exception, ExceptionResult};
use vstd::prelude::*;
use vstd::string::*;

verus! {

/// The largest accidental, in millionths of a semitone, of the spellings
/// that a search tries.
pub const ENHARMONIC_ALTER_LIMIT: IntegerType = 2_000_000;

/// The spellings that a search tries for a pitch: the pitch itself, then its
/// common enharmonics. `None` where these cannot be had.
#[verifier::opaque]
pub open spec fn candidates_of(p: Pitch) -> Option<Seq<Pitch>> {
    match common_enharmonics(p, ENHARMONIC_ALTER_LIMIT as int) {
        None => None,
        Some(others) => Some(seq![p] + others),
    }
}

/// Whether every pitch after the first has spellings to try.
pub open spec fn all_have_candidates(pitches: Seq<Pitch>) -> bool {
    forall|j: int| 1 <= j < pitches.len() ==> (#[trigger] candidates_of(pitches[j])) is Some
}

/// How many spellings each pitch after the first has.
pub open spec fn candidate_sizes(pitches: Seq<Pitch>) -> Seq<int> {
    Seq::new(
        (pitches.len() - 1) as nat,
        |j: int| candidates_of(pitches[j + 1])->Some_0.len() as int,
    )
}

/// The first pitch as it is, and after it, for each index of the tuple, the
/// spelling with that index of the next pitch.
pub open spec fn spelled(pitches: Seq<Pitch>, tuple: Seq<int>) -> Seq<Pitch> {
    Seq::new(
        tuple.len() + 1,
        |j: int|
            if j == 0 {
                pitches[0]
            } else {
                candidates_of(pitches[j])->Some_0[tuple[j - 1]]
            },
    )
}

/// Combination number `k` of the spellings, in the order in which the
/// spelling of the last pitch changes fastest.
pub open spec fn combination_at(pitches: Seq<Pitch>, k: int) -> Seq<Pitch> {
    spelled(pitches, tuple_at(candidate_sizes(pitches), k))
}

/// The number of combinations of the spellings.
pub open spec fn combination_count(pitches: Seq<Pitch>) -> int {
    tuple_count(candidate_sizes(pitches))
}

/// Whether the scorer gives every combination a score.
pub open spec fn all_combinations_scored<S: Scorer>(scorer: S, pitches: Seq<Pitch>) -> bool {
    forall|k: int|
        0 <= k < combination_count(pitches) ==> (#[trigger] scorer.score_spec(
            combination_at(pitches, k),
        )) is Some
}

/// The scores of the combinations, in their order.
pub open spec fn combination_scores<S: Scorer>(scorer: S, pitches: Seq<Pitch>) -> Seq<int> {
    Seq::new(
        combination_count(pitches) as nat,
        |k: int| scorer.score_spec(combination_at(pitches, k))->Some_0,
    )
}

/// The place of the least among the first `n` values; of several least
/// values, the first.
pub open spec fn first_min(values: Seq<int>, n: int) -> int
    decreases n,
{
    if n <= 1 {
        0
    } else {
        let best = first_min(values, n - 1);
        if values[n - 1] < values[best] {
            n - 1
        } else {
            best
        }
    }
}

/// The first least value is a least value, and no value before it is as
/// small.
pub proof fn lemma_first_min(values: Seq<int>, n: int)
    requires
        1 <= n <= values.len(),
    ensures
        0 <= first_min(values, n) < n,
        forall|k: int| 0 <= k < n ==> values[first_min(values, n)] <= #[trigger] values[k],
        forall|k: int|
            0 <= k < first_min(values, n) ==> values[first_min(values, n)] < #[trigger] values[k],
    decreases n,
{
    if n > 1 {
        lemma_first_min(values, n - 1);
    }
}

/// Where no value is less than the first, the first is the first least.
pub proof fn lemma_first_min_is_first(values: Seq<int>, n: int)
    requires
        1 <= n <= values.len(),
        forall|k: int| 0 <= k < n ==> values[0] <= #[trigger] values[k],
    ensures
        first_min(values, n) == 0,
    decreases n,
{
    if n > 1 {
        lemma_first_min_is_first(values, n - 1);
    }
}

/// What the exhaustive search comes to: of all combinations of the
/// spellings of the pitches after the first, the one with the least score,
/// and of several such the first. No pitches give no pitches. `None` where
/// a pitch has no spellings to try, where there are more combinations than
/// are ever laid out, and where a combination has no score.
pub open spec fn exhaustive_spec<S: Scorer>(scorer: S, pitches: Seq<Pitch>) -> Option<Seq<Pitch>> {
    if pitches.len() == 0 {
        Some(Seq::empty())
    } else if !all_have_candidates(pitches) {
        None
    } else if combination_count(pitches) > MAX_COMBINATIONS {
        None
    } else if !all_combinations_scored(scorer, pitches) {
        None
    } else {
        Some(
            combination_at(
                pitches,
                first_min(combination_scores(scorer, pitches), combination_count(pitches)),
            ),
        )
    }
}

/// A search tries at most twenty spellings for a pitch: the pitch itself
/// and at most nineteen others.
pub proof fn lemma_candidates_count(p: Pitch)
    ensures
        candidates_of(p) matches Some(spellings) ==> 1 <= spellings.len() <= 20,
{
    reveal(candidates_of);
    super::enharmonics::lemma_common_enharmonics_count(p, ENHARMONIC_ALTER_LIMIT as int);
}

/// Fewer than five pitches have at most eight thousand combinations of
/// their spellings, which is fewer than are ever laid out.
pub proof fn lemma_few_combinations(pitches: Seq<Pitch>)
    requires
        1 <= pitches.len() <= 4,
        all_have_candidates(pitches),
    ensures
        1 <= combination_count(pitches) <= 8000,
        combination_count(pitches) <= MAX_COMBINATIONS,
{
    let sizes = candidate_sizes(pitches);
    assert forall|j: int| 0 <= j < sizes.len() implies 1 <= #[trigger] sizes[j] <= 20 by {
        assert(candidates_of(pitches[j + 1]) is Some);
        lemma_candidates_count(pitches[j + 1]);
    }
    crate::common::product::lemma_tuple_count_bound(sizes, 20);
    lemma_tuple_count_positive(sizes);
    assert(vstd::arithmetic::power::pow(20, sizes.len()) <= 8000) by {
        reveal_with_fuel(vstd::arithmetic::power::pow, 5);
    }
}

/// The spellings that a search tries for a pitch.
pub fn candidates(p: &Pitch) -> (r: ExceptionResult<Vec<Pitch>>)
    ensures
        r is Ok <==> candidates_of(*p) is Some,
        r is Ok ==> Some(r->Ok_0@) == candidates_of(*p),
        r is Ok ==> r->Ok_0@.len() >= 1 && r->Ok_0@[0] == *p,
        r is Err ==> r->Err_0 is Pitch,
{
    reveal(candidates_of);
    let mut enharmonics = match p.get_all_common_enharmonics(ENHARMONIC_ALTER_LIMIT) {
        Ok(enharmonics) => enharmonics,
        Err(e) => {
            return Err(e);
        },
    };
    let ghost others = enharmonics@;
    enharmonics.insert(0, *p);
    assert(enharmonics@ == seq![*p] + others);
    Ok(enharmonics)
}

/// The number of tuples of indices below the sizes, unless it is more than
/// are ever laid out.
pub fn checked_tuple_count(sizes: &Vec<usize>) -> (count: Option<usize>)
    requires
        forall|j: int| 0 <= j < sizes@.len() ==> #[trigger] sizes@[j] >= 1,
    ensures
        count is Some <==> tuple_count(as_ints(sizes@)) <= MAX_COMBINATIONS,
        count is Some ==> count->Some_0 == tuple_count(as_ints(sizes@)),
        count is Some ==> count->Some_0 >= 1,
{
    let mut product: usize = 1;
    let mut i: usize = sizes.len();
    let ghost all = as_ints(sizes@);
    assert(all.skip(sizes.len() as int) == Seq::<int>::empty());
    while i > 0
        invariant
            i <= sizes.len(),
            all == as_ints(sizes@),
            forall|j: int| 0 <= j < sizes@.len() ==> #[trigger] sizes@[j] >= 1,
            product == tuple_count(all.skip(i as int)),
            1 <= product <= MAX_COMBINATIONS,
        decreases i,
    {
        i = i - 1;
        let size = sizes[i];
        proof {
            assert(all.skip(i as int).drop_first() == all.skip(i + 1));
            assert(all.skip(i as int)[0] == size);
            assert(tuple_count(all.skip(i as int)) == size * product);
            assert(size * product >= 1 && size * product <= 0xffff_ffff_ffff_ffff * 1_000_000)
                by (nonlinear_arith)
                requires
                    1 <= size <= 0xffff_ffff_ffff_ffff,
                    1 <= product <= 1_000_000,
            ;
        }
        let next: u128 = (size as u128) * (product as u128);
        if next > (MAX_COMBINATIONS as u128) {
            proof {
                lemma_tuple_count_grows(all, i as int);
            }
            return None;
        }
        product = next as usize;
    }
    assert(all.skip(0) == all);
    Some(product)
}

/// With sizes of at least 1, there are at least as many tuples for all
/// sizes as for the sizes from some place on.
pub proof fn lemma_tuple_count_grows(sizes: Seq<int>, from: int)
    requires
        0 <= from <= sizes.len(),
        forall|j: int| 0 <= j < sizes.len() ==> #[trigger] sizes[j] >= 1,
    ensures
        tuple_count(sizes) >= tuple_count(sizes.skip(from)) >= 1,
    decreases from,
{
    assert forall|j: int| 0 <= j < sizes.skip(from).len() implies #[trigger] sizes.skip(from)[j]
        >= 1 by {
        assert(sizes.skip(from)[j] == sizes[from + j]);
    }
    assert forall|j: int| 0 <= j < sizes.skip(from).len() implies #[trigger] sizes.skip(from)[j]
        >= 0 by {
        assert(sizes.skip(from)[j] == sizes[from + j]);
    }
    lemma_tuple_count_positive(sizes.skip(from));
    if from == 0 {
        assert(sizes.skip(0) == sizes);
    } else {
        lemma_tuple_count_grows(sizes, from - 1);
        let longer = sizes.skip(from - 1);
        assert(longer.drop_first() == sizes.skip(from));
        assert(longer[0] == sizes[from - 1]);
        assert(longer[0] * tuple_count(sizes.skip(from)) >= tuple_count(sizes.skip(from)))
            by (nonlinear_arith)
            requires
                longer[0] >= 1,
                tuple_count(sizes.skip(from)) >= 1,
        ;
    }
}

/// The first pitch, and after it, for each set, the pitch that the tuple
/// picks from it.
pub fn assemble(anchor: &Pitch, sets: &Vec<Vec<Pitch>>, tuple: &Vec<usize>) -> (pitches: Vec<Pitch>)
    requires
        tuple@.len() == sets@.len(),
        forall|j: int| 0 <= j < sets@.len() ==> (#[trigger] tuple@[j]) < sets@[j]@.len(),
    ensures
        pitches@.len() == sets@.len() + 1,
        pitches@[0] == *anchor,
        forall|j: int|
            0 <= j < sets@.len() ==> #[trigger] pitches@[j + 1] == sets@[j]@[tuple@[j] as int],
{
    let mut pitches: Vec<Pitch> = Vec::new();
    pitches.push(*anchor);
    let mut j: usize = 0;
    while j < sets.len()
        invariant
            j <= sets.len(),
            tuple@.len() == sets@.len(),
            forall|m: int| 0 <= m < sets@.len() ==> (#[trigger] tuple@[m]) < sets@[m]@.len(),
            pitches@.len() == j + 1,
            pitches@[0] == *anchor,
            forall|m: int| 0 <= m < j ==> #[trigger] pitches@[m + 1] == sets@[m]@[tuple@[m] as int],
        decreases sets.len() - j,
    {
        let index = tuple[j];
        assert(tuple@[j as int] < sets@[j as int]@.len());
        pitches.push(sets[j][index]);
        j = j + 1;
    }
    pitches
}

/// Whether the sets are the spellings of the pitches after the first, one
/// set for each.
pub open spec fn sets_match(pitches: Seq<Pitch>, sets: Seq<Vec<Pitch>>) -> bool {
    &&& sets.len() == pitches.len() - 1
    &&& forall|j: int|
        0 <= j < sets.len() ==> Some((#[trigger] sets[j])@) == candidates_of(pitches[j + 1])
}

/// The spellings of the pitches after the first, one set for each.
pub fn candidate_sets(pitches: &Vec<Pitch>) -> (r: ExceptionResult<Vec<Vec<Pitch>>>)
    requires
        pitches@.len() >= 1,
    ensures
        r is Ok <==> all_have_candidates(pitches@),
        r is Ok ==> sets_match(pitches@, r->Ok_0@),
        r is Err ==> r->Err_0 is Pitch,
{
    let mut sets: Vec<Vec<Pitch>> = Vec::new();
    let mut j: usize = 1;
    while j < pitches.len()
        invariant
            1 <= j <= pitches.len(),
            sets@.len() == j - 1,
            forall|m: int|
                0 <= m < sets@.len() ==> Some((#[trigger] sets@[m])@) == candidates_of(
                    pitches@[m + 1],
                ),
        decreases pitches.len() - j,
    {
        let enharmonics = match candidates(&pitches[j]) {
            Ok(enharmonics) => enharmonics,
            Err(e) => {
                assert(candidates_of(pitches@[j as int]) is None);
                return Err(e);
            },
        };
        sets.push(enharmonics);
        j = j + 1;
    }
    assert forall|m: int| 1 <= m < pitches@.len() implies (#[trigger] candidates_of(
        pitches@[m],
    )) is Some by {
        assert(Some(sets@[m - 1]@) == candidates_of(pitches@[m - 1 + 1]));
    }
    Ok(sets)
}

/// How many spellings each set holds.
pub fn set_sizes(pitches: &Vec<Pitch>, sets: &Vec<Vec<Pitch>>) -> (sizes: Vec<usize>)
    requires
        pitches@.len() >= 1,
        sets_match(pitches@, sets@),
    ensures
        as_ints(sizes@) == candidate_sizes(pitches@),
        forall|m: int| 0 <= m < sizes@.len() ==> #[trigger] sizes@[m] >= 1,
        forall|m: int|
            0 <= m < candidate_sizes(pitches@).len() ==> #[trigger] candidate_sizes(pitches@)[m]
                >= 1,
{
    let mut sizes: Vec<usize> = Vec::new();
    let mut j: usize = 0;
    while j < sets.len()
        invariant
            j <= sets.len(),
            sizes@.len() == j,
            forall|m: int| 0 <= m < j ==> #[trigger] sizes@[m] == sets@[m]@.len(),
        decreases sets.len() - j,
    {
        sizes.push(sets[j].len());
        j = j + 1;
    }
    proof {
        let size_ints = candidate_sizes(pitches@);
        assert forall|m: int| 0 <= m < sizes@.len() implies #[trigger] sizes@[m] >= 1
            && as_ints(sizes@)[m] == size_ints[m] by {
            assert(Some(sets@[m]@) == candidates_of(pitches@[m + 1]));
            lemma_candidates_begin(pitches@[m + 1]);
        }
        assert(as_ints(sizes@) =~= size_ints);
        assert forall|m: int| 0 <= m < size_ints.len() implies #[trigger] size_ints[m] >= 1 by {
            assert(as_ints(sizes@)[m] == sizes@[m]);
        }
    }
    sizes
}

/// The spellings of a pitch begin with the pitch itself.
pub proof fn lemma_candidates_begin(p: Pitch)
    ensures
        candidates_of(p) is Some ==> candidates_of(p)->Some_0.len() >= 1 && candidates_of(
            p,
        )->Some_0[0] == p,
{
    reveal(candidates_of);
}

/// The combination of spellings that a tuple of indices picks.
fn nth_combination(
    old_pitches: &Vec<Pitch>,
    sets: &Vec<Vec<Pitch>>,
    tuple: &Vec<usize>,
    Ghost(k): Ghost<int>,
) -> (pitches: Vec<Pitch>)
    requires
        old_pitches@.len() >= 1,
        sets_match(old_pitches@, sets@),
        0 <= k < combination_count(old_pitches@),
        forall|m: int|
            0 <= m < candidate_sizes(old_pitches@).len() ==> #[trigger] candidate_sizes(
                old_pitches@,
            )[m] >= 1,
        as_ints(tuple@) == tuple_at(candidate_sizes(old_pitches@), k),
    ensures
        pitches@ == combination_at(old_pitches@, k),
        pitches@.len() == old_pitches@.len(),
{
    let ghost size_ints = candidate_sizes(old_pitches@);
    let ghost indices = tuple_at(size_ints, k);
    proof {
        lemma_tuple_at_is_tuple(size_ints, k);
        assert(tuple@.len() == sets@.len()) by {
            assert(as_ints(tuple@).len() == tuple@.len());
        }
        assert forall|m: int| 0 <= m < sets@.len() implies (#[trigger] tuple@[m]) < sets@[m]@.len() by {
            assert(as_ints(tuple@)[m] == tuple@[m]);
            assert(indices[m] < size_ints[m]);
            assert(Some(sets@[m]@) == candidates_of(old_pitches@[m + 1]));
        }
    }
    let pitches = assemble(&old_pitches[0], sets, tuple);
    proof {
        assert forall|m: int| 0 <= m < pitches@.len() implies pitches@[m] == spelled(
            old_pitches@,
            indices,
        )[m] by {
            if m > 0 {
                assert(pitches@[(m - 1) + 1] == sets@[m - 1]@[tuple@[m - 1] as int]);
                assert(as_ints(tuple@)[m - 1] == tuple@[m - 1]);
                assert(Some(sets@[m - 1]@) == candidates_of(old_pitches@[m - 1 + 1]));
            }
        }
        assert(pitches@ =~= spelled(old_pitches@, indices));
    }
    pitches
}

/// Tries every combination of the spellings of the pitches after the first
/// and keeps the one that the scorer gives the least score; of several such,
/// the first. The first pitch stays as it is.
pub fn brute_force_enharmonics_search<S: Scorer>(old_pitches: &Vec<Pitch>, scorer: &mut S) -> (r:
    ExceptionResult<Vec<Pitch>>)
    ensures
        r is Ok <==> exhaustive_spec(*old(scorer), old_pitches@) is Some,
        r is Ok ==> Some(r->Ok_0@) == exhaustive_spec(*old(scorer), old_pitches@),
        r is Ok ==> r->Ok_0@.len() == old_pitches@.len(),
        forall|s: Seq<Pitch>| #[trigger] final(scorer).score_spec(s) == old(scorer).score_spec(s),
{
    if old_pitches.len() == 0 {
        return Ok(Vec::new());
    }
    let all_possible_pitches = match candidate_sets(old_pitches) {
        Ok(sets) => sets,
        Err(e) => {
            return Err(e);
        },
    };
    let sizes = set_sizes(old_pitches, &all_possible_pitches);
    let count = match checked_tuple_count(&sizes) {
        Some(count) => count,
        None => {
            return Err(
                Exception::Pitch(String::from_str("too many combinations of spellings to try")),
            );
        },
    };
    let all_pitch_combinations = index_combinations(&sizes);
    let mut min_score: Score = 0;
    let mut best_combination: Vec<Pitch> = Vec::new();
    let mut k: usize = 0;
    let ghost scores = combination_scores(*old(scorer), old_pitches@);
    while k < all_pitch_combinations.len()
        invariant
            k <= all_pitch_combinations.len(),
            old_pitches@.len() >= 1,
            sets_match(old_pitches@, all_possible_pitches@),
            forall|m: int|
                0 <= m < candidate_sizes(old_pitches@).len() ==> #[trigger] candidate_sizes(
                    old_pitches@,
                )[m] >= 1,
            all_pitch_combinations@.len() == combination_count(old_pitches@),
            forall|i: int|
                0 <= i < all_pitch_combinations@.len() ==> as_ints(
                    (#[trigger] all_pitch_combinations@[i])@,
                ) == tuple_at(candidate_sizes(old_pitches@), i),
            forall|s: Seq<Pitch>| #[trigger] scorer.score_spec(s) == old(scorer).score_spec(s),
            scores == combination_scores(*old(scorer), old_pitches@),
            forall|i: int|
                0 <= i < k ==> (#[trigger] old(scorer).score_spec(
                    combination_at(old_pitches@, i),
                )) is Some,
            k >= 1 ==> min_score == scores[first_min(scores, k as int)],
            k >= 1 ==> best_combination@ == combination_at(
                old_pitches@,
                first_min(scores, k as int),
            ),
            k >= 1 ==> best_combination@.len() == old_pitches@.len(),
            all_pitch_combinations@.len() >= 1,
        decreases all_pitch_combinations.len() - k,
    {
        let pitches = nth_combination(
            old_pitches,
            &all_possible_pitches,
            &all_pitch_combinations[k],
            Ghost(k as int),
        );
        let score = match scorer.score(&pitches) {
            Ok(score) => score,
            Err(e) => {
                proof {
                    assert(old(scorer).score_spec(combination_at(old_pitches@, k as int)) is None);
                    assert(!all_combinations_scored(*old(scorer), old_pitches@));
                }
                return Err(e);
            },
        };
        assert(scores[k as int] == score);
        if k == 0 || score < min_score {
            min_score = score;
            best_combination = pitches;
        }
        k = k + 1;
    }
    assert(all_combinations_scored(*old(scorer), old_pitches@));
    Ok(best_combination)
}

/// Whether the scorer gives a score to what was spelled so far followed by
/// each spelling of the next pitch.
pub open spec fn all_candidates_scored<S: Scorer>(
    scorer: S,
    so_far: Seq<Pitch>,
    spellings: Seq<Pitch>,
) -> bool {
    forall|i: int|
        0 <= i < spellings.len() ==> (#[trigger] scorer.score_spec(so_far.push(spellings[i]))) is Some
}

/// The scores of what was spelled so far followed by each spelling of the
/// next pitch.
pub open spec fn candidate_scores<S: Scorer>(
    scorer: S,
    so_far: Seq<Pitch>,
    spellings: Seq<Pitch>,
) -> Seq<int> {
    Seq::new(spellings.len(), |i: int| scorer.score_spec(so_far.push(spellings[i]))->Some_0)
}

/// The spellings that the greedy search picks for the pitches after the
/// first, up to pitch `n`, as indices: for each pitch in turn the spelling
/// that gives what was spelled so far the least score, and of several such
/// the first. `None` where a pitch has no spellings to try or a score is
/// missing.
pub open spec fn greedy_choice<S: Scorer>(scorer: S, pitches: Seq<Pitch>, n: int) -> Option<
    Seq<int>,
>
    decreases n,
{
    if n <= 1 {
        Some(Seq::empty())
    } else {
        match greedy_choice(scorer, pitches, n - 1) {
            None => None,
            Some(chosen) => match candidates_of(pitches[n - 1]) {
                None => None,
                Some(spellings) => {
                    let so_far = spelled(pitches, chosen);
                    if all_candidates_scored(scorer, so_far, spellings) {
                        Some(
                            chosen.push(
                                first_min(
                                    candidate_scores(scorer, so_far, spellings),
                                    spellings.len() as int,
                                ),
                            ),
                        )
                    } else {
                        None
                    }
                },
            },
        }
    }
}

/// What the greedy search comes to: the first pitch as it is, and each
/// pitch after it in the spelling that scores least after those before it.
/// `None` for no pitches, and where a pitch has no spellings to try or a
/// score is missing.
pub open spec fn greedy_spec<S: Scorer>(scorer: S, pitches: Seq<Pitch>) -> Option<Seq<Pitch>> {
    if pitches.len() == 0 {
        None
    } else {
        match greedy_choice(scorer, pitches, pitches.len() as int) {
            None => None,
            Some(chosen) => Some(spelled(pitches, chosen)),
        }
    }
}

/// Whether index `j` of a choice lies within the spellings of its pitch.
pub open spec fn picks_spelling(pitches: Seq<Pitch>, chosen: Seq<int>, j: int) -> bool {
    &&& candidates_of(pitches[j + 1]) is Some
    &&& 0 <= chosen[j] < candidates_of(pitches[j + 1])->Some_0.len()
}

/// Whether a choice has an index for each of the first pitches after the
/// first one, each index within the spellings of its pitch.
pub open spec fn is_choice_for(pitches: Seq<Pitch>, chosen: Seq<int>) -> bool {
    &&& chosen.len() + 1 <= pitches.len()
    &&& forall|j: int| 0 <= j < chosen.len() ==> #[trigger] picks_spelling(pitches, chosen, j)
}

/// The choice of the greedy search up to a pitch has an index for each
/// pitch after the first, each within the spellings of its pitch.
pub proof fn lemma_greedy_choice<S: Scorer>(scorer: S, pitches: Seq<Pitch>, n: int)
    requires
        1 <= n <= pitches.len(),
        greedy_choice(scorer, pitches, n) is Some,
    ensures
        greedy_choice(scorer, pitches, n)->Some_0.len() == n - 1,
        is_choice_for(pitches, greedy_choice(scorer, pitches, n)->Some_0),
    decreases n,
{
    if n > 1 {
        assert(greedy_choice(scorer, pitches, n - 1) is Some);
        assert(candidates_of(pitches[n - 1]) is Some);
        lemma_greedy_choice(scorer, pitches, n - 1);
        let chosen = greedy_choice(scorer, pitches, n - 1)->Some_0;
        let spellings = candidates_of(pitches[n - 1])->Some_0;
        lemma_candidates_begin(pitches[n - 1]);
        let scores = candidate_scores(scorer, spelled(pitches, chosen), spellings);
        lemma_first_min(scores, spellings.len() as int);
        let longer = greedy_choice(scorer, pitches, n)->Some_0;
        assert(longer == chosen.push(first_min(scores, spellings.len() as int)));
        assert forall|j: int| 0 <= j < longer.len() implies #[trigger] picks_spelling(
            pitches,
            longer,
            j,
        ) by {
            if j < n - 2 {
                assert(longer[j] == chosen[j]);
                assert(picks_spelling(pitches, chosen, j));
            } else {
                assert(longer[j] == first_min(scores, spellings.len() as int));
                assert(pitches[j + 1] == pitches[n - 1]);
            }
        }
    }
}

/// Where the greedy search fails up to a pitch, it fails up to every later
/// pitch.
pub proof fn lemma_greedy_fails_on<S: Scorer>(scorer: S, pitches: Seq<Pitch>, n: int, later: int)
    requires
        n <= later,
        greedy_choice(scorer, pitches, n) is None,
    ensures
        greedy_choice(scorer, pitches, later) is None,
    decreases later - n,
{
    if n < later {
        lemma_greedy_fails_on(scorer, pitches, n, later - 1);
    }
}

/// Spells the pitches one after the other: the first stays as it is, and
/// each pitch after it takes the spelling that the scorer gives the least
/// score after those before it; of several such, the first.
pub fn greedy_enharmonics_search<S: Scorer>(old_pitches: &Vec<Pitch>, scorer: &mut S) -> (r:
    ExceptionResult<Vec<Pitch>>)
    ensures
        r is Ok <==> greedy_spec(*old(scorer), old_pitches@) is Some,
        r is Ok ==> Some(r->Ok_0@) == greedy_spec(*old(scorer), old_pitches@),
        r is Ok ==> r->Ok_0@.len() == old_pitches@.len(),
        old_pitches@.len() == 0 ==> r is Err && r->Err_0 is Pitch,
        forall|s: Seq<Pitch>| #[trigger] final(scorer).score_spec(s) == old(scorer).score_spec(s),
{
    let mut new_pitches: Vec<Pitch> = Vec::new();
    if old_pitches.len() > 0 {
        new_pitches.push(old_pitches[0]);
    } else {
        return Err(
            Exception::Pitch(
                String::from_str("can't perform greedy enharmonics search on empty pitches"),
            ),
        );
    }
    let ghost mut chosen: Seq<int> = Seq::empty();
    assert(new_pitches@ =~= spelled(old_pitches@, chosen));
    let mut n: usize = 1;
    while n < old_pitches.len()
        invariant
            1 <= n <= old_pitches.len(),
            forall|s: Seq<Pitch>| #[trigger] scorer.score_spec(s) == old(scorer).score_spec(s),
            greedy_choice(*old(scorer), old_pitches@, n as int) == Some(chosen),
            chosen.len() == n - 1,
            new_pitches@ == spelled(old_pitches@, chosen),
        decreases old_pitches.len() - n,
    {
        let spellings = match candidates(&old_pitches[n]) {
            Ok(spellings) => spellings,
            Err(e) => {
                proof {
                    assert(greedy_choice(*old(scorer), old_pitches@, n + 1) is None);
                    lemma_greedy_fails_on(
                        *old(scorer),
                        old_pitches@,
                        n + 1,
                        old_pitches@.len() as int,
                    );
                }
                return Err(e);
            },
        };
        let ghost so_far = new_pitches@;
        let ghost scores = candidate_scores(*old(scorer), so_far, spellings@);
        let mut best_candidate: usize = 0;
        let mut best_score: Score = 0;
        let mut i: usize = 0;
        while i < spellings.len()
            invariant
                i <= spellings.len(),
                spellings@.len() >= 1,
                1 <= n < old_pitches.len(),
                Some(spellings@) == candidates_of(old_pitches@[n as int]),
                greedy_choice(*old(scorer), old_pitches@, n as int) == Some(chosen),
                so_far == spelled(old_pitches@, chosen),
                new_pitches@ == so_far,
                forall|s: Seq<Pitch>| #[trigger] scorer.score_spec(s) == old(scorer).score_spec(s),
                scores == candidate_scores(*old(scorer), so_far, spellings@),
                forall|m: int|
                    0 <= m < i ==> (#[trigger] old(scorer).score_spec(
                        so_far.push(spellings@[m]),
                    )) is Some,
                i >= 1 ==> best_candidate == first_min(scores, i as int),
                i >= 1 ==> best_score == scores[best_candidate as int],
                best_candidate < spellings.len(),
            decreases spellings.len() - i,
        {
            new_pitches.push(spellings[i]);
            let scored = scorer.score(&new_pitches);
            new_pitches.pop();
            assert(new_pitches@ =~= so_far);
            let score = match scored {
                Ok(score) => score,
                Err(e) => {
                    proof {
                        assert(old(scorer).score_spec(so_far.push(spellings@[i as int])) is None);
                        assert(!all_candidates_scored(*old(scorer), so_far, spellings@));
                        assert(greedy_choice(*old(scorer), old_pitches@, n + 1) is None);
                        lemma_greedy_fails_on(
                            *old(scorer),
                            old_pitches@,
                            n + 1,
                            old_pitches@.len() as int,
                        );
                    }
                    return Err(e);
                },
            };
            assert(scores[i as int] == score);
            if i == 0 || score < best_score {
                best_score = score;
                best_candidate = i;
            }
            i = i + 1;
        }
        proof {
            assert(all_candidates_scored(*old(scorer), so_far, spellings@));
            let longer = chosen.push(best_candidate as int);
            assert(greedy_choice(*old(scorer), old_pitches@, n + 1) == Some(longer));
            assert(so_far.push(spellings@[best_candidate as int]) =~= spelled(old_pitches@, longer))
                by {
                assert forall|m: int| 0 <= m < longer.len() + 1 implies so_far.push(
                    spellings@[best_candidate as int],
                )[m] == spelled(old_pitches@, longer)[m] by {
                    if 0 < m < longer.len() {
                        assert(longer[m - 1] == chosen[m - 1]);
                        assert(so_far[m] == spelled(old_pitches@, chosen)[m]);
                    }
                }
            }
            chosen = longer;
        }
        new_pitches.push(spellings[best_candidate]);
        n = n + 1;
    }
    Ok(new_pitches)
}

} // verus!
