use super::enharmonics::alter_size;
use super::Pitch;
use crate::defaults::{IntegerType, SEMITONE};
use crate::exception::{Exception, ExceptionResult};
use crate::fraction_pow::Fraction;
use crate::interval::genericinterval::generic_simple_directed;
use crate::interval::pythagorean::{
    ratio_of_transposition, reference_pitch_spec, RatioCache, RatioCacheEntry, RatioOutcome,
};
use crate::interval::{
    generic_between, interval_exists_between, interval_transposition, semitones_between, Interval,
};
use vstd::arithmetic::power2::pow2;
use vstd::prelude::*;
use vstd::string::*;

verus! {

/// A dissonance in millionths: lower is more consonant.
pub type Score = IntegerType;

/// The natural logarithm of 2, times 0.037926633, in millionths.
pub const LN_TWO_WEIGHT: IntegerType = 26_289;

/// The natural logarithm of 3, times 0.037926633, in millionths: a twenty
/// fourth, so that the denominator of the diminished second weighs a half.
pub const LN_THREE_WEIGHT: IntegerType = 41_667;

/// How often a number can be divided by `p` without remainder.
pub open spec fn multiplicity(n: nat, p: nat) -> nat
    decreases n,
{
    if p >= 2 && n > 0 && n % p == 0 {
        proof {
            vstd::arithmetic::div_mod::lemma_div_decreases(n as int, p as int);
        }
        1 + multiplicity(n / p, p)
    } else {
        0
    }
}

/// The weight of a denominator: its natural logarithm times 0.037926633, in
/// millionths, as far as the denominator is made of twos and threes.
pub open spec fn ratio_penalty(denom: nat) -> int {
    multiplicity(denom, 2) * LN_TWO_WEIGHT + multiplicity(denom, 3) * LN_THREE_WEIGHT
}

/// A pitch without its octave.
pub open spec fn stripped(p: Pitch) -> Pitch {
    Pitch { octave: None, ..p }
}

/// What a pitch adds to the penalty for accidentals: the size of its
/// alteration where that is more than a semitone.
pub open spec fn excess_alter(p: Pitch) -> int {
    let size = alter_size(p.alter_spec());
    if size > SEMITONE {
        size
    } else {
        0
    }
}

/// The penalties for accidentals of the first `n` pitches, added up.
pub open spec fn excess_sum(pitches: Seq<Pitch>, n: int) -> int
    decreases n,
{
    if n <= 0 {
        0
    } else {
        excess_sum(pitches, n - 1) + excess_alter(pitches[n - 1])
    }
}

/// The two terms that look at pairs of pitches.
pub enum PairTerm {
    Ratio,
    Triad,
}

/// The remainder of a division that rounds towards zero.
pub open spec fn truncated_rem(a: int, b: int) -> int {
    if a >= 0 {
        a % b
    } else {
        -((-a) % b)
    }
}

/// The quotient of a division that rounds towards zero.
pub open spec fn truncated_div(a: int, b: int) -> int {
    if a >= 0 {
        a / b
    } else {
        -((-a) / b)
    }
}

/// Whether the interval from one pitch to another, octaves apart, is a
/// third of three or four semitones or a sixth of eight or nine.
pub open spec fn is_third_or_sixth(p: Pitch, q: Pitch) -> bool {
    let steps = generic_simple_directed(generic_between(stripped(p), stripped(q)));
    let semitones = truncated_rem(semitones_between(stripped(p), stripped(q)), 12);
    (steps == 3 && (semitones == 3 || semitones == 4)) || (steps == 6 && (semitones == 8
        || semitones == 9))
}

/// The ratio of the interval from one pitch to another, octaves apart.
pub open spec fn pair_ratio(p: Pitch, q: Pitch) -> RatioOutcome {
    ratio_of_transposition(
        interval_transposition(
            false,
            generic_between(stripped(p), stripped(q)),
            semitones_between(stripped(p), stripped(q)),
            reference_pitch_spec(),
            Some(4int),
        ),
    )
}

/// What a pair of pitches adds to a term: to the ratio term the weight of
/// the denominator of its ratio, to the triad term one semitone less for a
/// third or a sixth. `None` where the pair has no interval, or no ratio
/// where one is asked for.
pub open spec fn pair_value(term: PairTerm, p: Pitch, q: Pitch) -> Option<int> {
    if !interval_exists_between(stripped(p), stripped(q)) {
        None
    } else {
        match term {
            PairTerm::Ratio => match pair_ratio(p, q) {
                RatioOutcome::Ratio(ratio) => Some(ratio_penalty(ratio->Rational_2 as nat)),
                _ => None,
            },
            PairTerm::Triad => Some(
                if is_third_or_sixth(p, q) {
                    -(SEMITONE as int)
                } else {
                    0
                },
            ),
        }
    }
}

/// What a pair adds to a term, and nothing where it has nothing to add.
pub open spec fn pair_value_or_zero(term: PairTerm, p: Pitch, q: Pitch) -> int {
    match pair_value(term, p, q) {
        Some(v) => v,
        None => 0,
    }
}

/// A term added up over the pairs of pitch `i` with the pitches after it,
/// up to pitch `j`.
pub open spec fn row_sum(term: PairTerm, pitches: Seq<Pitch>, i: int, j: int) -> int
    decreases j - i,
{
    if j <= i + 1 {
        0
    } else {
        row_sum(term, pitches, i, j - 1) + pair_value_or_zero(term, pitches[i], pitches[j - 1])
    }
}

/// A term added up over all pairs whose first pitch is one of the first `n`.
pub open spec fn pairs_sum(term: PairTerm, pitches: Seq<Pitch>, n: int) -> int
    decreases n,
{
    if n <= 0 {
        0
    } else {
        pairs_sum(term, pitches, n - 1) + row_sum(
            term,
            pitches,
            n - 1,
            pitches.len() as int,
        )
    }
}

/// Whether every pair of pitches has something to add to a term.
pub open spec fn all_pairs_defined(term: PairTerm, pitches: Seq<Pitch>) -> bool {
    forall|i: int, j: int|
        0 <= i < j < pitches.len() ==> (#[trigger] pair_value(term, pitches[i], pitches[j])) is Some
}

/// The number of pairs among `n` pitches.
pub open spec fn pair_count(n: int) -> int {
    n * (n - 1) / 2
}

/// The mean of a sum over a count, rounded towards zero; of nothing it is 0.
pub open spec fn mean(sum: int, count: int) -> int {
    if count <= 0 {
        0
    } else {
        truncated_div(sum, count)
    }
}

/// The dissonance of a sequence of pitches, in millionths. Each enabled
/// term is a mean: the accidental term over the pitches, of the size of
/// each alteration that is more than a semitone; the ratio term over the
/// pairs, of the weight of the denominator of the pair's ratio; the triad
/// term over the pairs, of one semitone less for each third or sixth. The
/// score is the mean of the enabled terms. No pitches score 0, and so does
/// any sequence when no term is enabled. `None` where a pair has no interval
/// or no ratio that an enabled term needs.
pub open spec fn dissonance_score_spec(
    pitches: Seq<Pitch>,
    small_pythagorean_ratio: bool,
    accidental_penalty: bool,
    triad_award: bool,
) -> Option<int> {
    let n = pitches.len() as int;
    if n == 0 {
        Some(0)
    } else if small_pythagorean_ratio && !all_pairs_defined(PairTerm::Ratio, pitches) {
        None
    } else if triad_award && !all_pairs_defined(PairTerm::Triad, pitches) {
        None
    } else {
        let accidentals = if accidental_penalty {
            mean(excess_sum(pitches, n), n)
        } else {
            0
        };
        let ratios = if small_pythagorean_ratio {
            mean(pairs_sum(PairTerm::Ratio, pitches, n), pair_count(n))
        } else {
            0
        };
        let triads = if triad_award {
            mean(pairs_sum(PairTerm::Triad, pitches, n), pair_count(n))
        } else {
            0
        };
        let enabled = (if small_pythagorean_ratio {
            1int
        } else {
            0int
        }) + (if accidental_penalty {
            1int
        } else {
            0int
        }) + (if triad_award {
            1int
        } else {
            0int
        });
        Some(mean(accidentals + ratios + triads, enabled))
    }
}

/// How often a positive number can be divided by 2 or by 3 without
/// remainder.
pub fn count_factor(n: IntegerType, p: IntegerType) -> (count: IntegerType)
    requires
        n > 0,
        p == 2 || p == 3,
    ensures
        count == multiplicity(n as nat, p as nat),
        0 <= count <= 62,
{
    let mut d = n;
    let mut count: IntegerType = 0;
    let ghost mut scale: int = 1;
    proof {
        vstd::arithmetic::power2::lemma2_to64();
    }
    while d % p == 0
        invariant
            p == 2 || p == 3,
            d >= 1,
            0 <= count <= 62,
            scale >= pow2(count as nat),
            d * scale == n,
            count + multiplicity(d as nat, p as nat) == multiplicity(n as nat, p as nat),
        decreases d,
    {
        proof {
            vstd::arithmetic::div_mod::lemma_fundamental_div_mod(d as int, p as int);
            vstd::arithmetic::power2::lemma_pow2_unfold((count + 1) as nat);
            let q = d as int / p as int;
            assert(d == p * q);
            assert(q >= 1);
            assert(q * (scale * p) == n) by (nonlinear_arith)
                requires
                    d == p * q,
                    d * scale == n,
            ;
            assert(scale * p >= 2 * pow2(count as nat)) by (nonlinear_arith)
                requires
                    scale >= pow2(count as nat),
                    p >= 2,
                    scale >= 0,
            ;
            assert(scale * p <= n) by (nonlinear_arith)
                requires
                    q * (scale * p) == n,
                    q >= 1,
                    scale * p >= 0,
            ;
            if count + 1 > 62 {
                vstd::arithmetic::power2::lemma2_to64_rest();
                if count + 1 > 63 {
                    vstd::arithmetic::power2::lemma_pow2_strictly_increases(63, (count + 1) as nat);
                }
                assert(false);
            }
            scale = scale * p;
        }
        d = d / p;
        count = count + 1;
    }
    count
}

/// The weight of a positive denominator.
pub fn denominator_penalty(denom: IntegerType) -> (penalty: IntegerType)
    requires
        denom > 0,
    ensures
        penalty == ratio_penalty(denom as nat),
        0 <= penalty <= 62 * LN_TWO_WEIGHT + 62 * LN_THREE_WEIGHT,
{
    let twos = count_factor(denom, 2);
    let threes = count_factor(denom, 3);
    assert(0 <= twos * LN_TWO_WEIGHT <= 62 * LN_TWO_WEIGHT && 0 <= threes * LN_THREE_WEIGHT <= 62
        * LN_THREE_WEIGHT) by (nonlinear_arith)
        requires
            0 <= twos <= 62,
            0 <= threes <= 62,
            LN_TWO_WEIGHT == 26_289,
            LN_THREE_WEIGHT == 41_667,
    ;
    twos * LN_TWO_WEIGHT + threes * LN_THREE_WEIGHT
}

/// What a pair of pitches adds to the two terms over pairs: the weight of
/// its ratio where `with_ratio` asks for it, and whether it is a third or a
/// sixth.
pub fn score_pair(p: &Pitch, q: &Pitch, with_ratio: bool, cache: &mut RatioCache) -> (r:
    ExceptionResult<(IntegerType, bool)>)
    ensures
        r is Ok <==> pair_value(PairTerm::Triad, *p, *q) is Some && (with_ratio ==> pair_value(
            PairTerm::Ratio,
            *p,
            *q,
        ) is Some),
        r is Ok && with_ratio ==> Some(r->Ok_0.0 as int) == pair_value(PairTerm::Ratio, *p, *q),
        r is Ok ==> 0 <= r->Ok_0.0 <= 62 * LN_TWO_WEIGHT + 62 * LN_THREE_WEIGHT,
        r is Ok ==> r->Ok_0.1 == is_third_or_sixth(*p, *q),
        r is Err ==> r->Err_0 is Interval || r->Err_0 is Pitch || r->Err_0 is Accidental,
        old(cache)@.submap_of(final(cache)@),
{
    let mut p1 = *p;
    let mut p2 = *q;
    p1.octave_setter(None);
    p2.octave_setter(None);
    let interval = match Interval::between(&p1, &p2) {
        Ok(interval) => interval,
        Err(e) => {
            return Err(e);
        },
    };
    let mut penalty: IntegerType = 0;
    if with_ratio {
        let ratio = match cache.interval_to_pythagorean_ratio(&interval) {
            Ok(ratio) => ratio,
            Err(e) => {
                return Err(e);
            },
        };
        penalty = match ratio {
            Fraction::Rational(_, _, denom) => denominator_penalty(denom),
            _ => 0,
        };
    }
    let simple_directed = interval.generic().simple_directed();
    let interval_semitones = interval.chromatic.semitones % 12;
    let triad = (simple_directed == 3 && (interval_semitones == 3 || interval_semitones == 4))
        || (simple_directed == 6 && (interval_semitones == 8 || interval_semitones == 9));
    Ok((penalty, triad))
}

/// The mean of a sum over a count, rounded towards zero; it lies within the
/// bounds of what was added up.
fn mean_of(sum: i128, count: i128, Ghost(lowest): Ghost<int>, Ghost(highest): Ghost<int>) -> (m:
    i128)
    requires
        lowest <= 0 <= highest,
        count > 0 ==> lowest * count <= sum <= highest * count,
    ensures
        m == mean(sum as int, count as int),
        lowest <= m <= highest,
{
    if count <= 0 {
        0
    } else {
        proof {
            if sum >= 0 {
                vstd::arithmetic::div_mod::lemma_div_is_ordered(
                    sum as int,
                    highest * count,
                    count as int,
                );
                vstd::arithmetic::div_mod::lemma_div_multiples_vanish(highest, count as int);
                assert(highest * count == count * highest) by (nonlinear_arith);
                vstd::arithmetic::div_mod::lemma_div_pos_is_pos(sum as int, count as int);
            } else {
                assert(-sum <= (-lowest) * count) by (nonlinear_arith)
                    requires
                        lowest * count <= sum,
                ;
                vstd::arithmetic::div_mod::lemma_div_is_ordered(
                    -sum as int,
                    (-lowest) * count,
                    count as int,
                );
                vstd::arithmetic::div_mod::lemma_div_multiples_vanish(-lowest, count as int);
                assert((-lowest) * count == count * (-lowest)) by (nonlinear_arith);
                vstd::arithmetic::div_mod::lemma_div_pos_is_pos(-sum as int, count as int);
            }
        }
        sum / count
    }
}

/// Twice the number of pairs among `n` pitches is `n * (n - 1)`.
pub proof fn lemma_pair_count(n: int)
    requires
        n >= 0,
    ensures
        2 * pair_count(n) == n * (n - 1),
        pair_count(n) >= 0,
        n >= 2 ==> pair_count(n) >= 1,
{
    let k = n / 2;
    if n % 2 == 0 {
        assert(n * (n - 1) == 2 * (k * (n - 1))) by (nonlinear_arith)
            requires
                n == 2 * k,
        ;
    } else {
        assert(n * (n - 1) == 2 * (n * k)) by (nonlinear_arith)
            requires
                n == 2 * k + 1,
        ;
    }
    assert(n * (n - 1) >= 0) by (nonlinear_arith)
        requires
            n >= 0,
    ;
    if n >= 2 {
        assert(n * (n - 1) >= 2) by (nonlinear_arith)
            requires
                n >= 2,
        ;
    }
}

/// The pairs of the first `i` pitches with the pitches after them, and of
/// pitch `i` with the pitches up to `j`, are not more than all pairs.
pub proof fn lemma_pairs_so_far(n: int, i: int, j: int, start: int)
    requires
        0 <= i < j <= n,
        2 * start == i * (2 * n - i - 1),
    ensures
        start + (j - i - 1) <= pair_count(n),
        2 * (start + (n - i - 1)) == (i + 1) * (2 * n - (i + 1) - 1),
{
    lemma_pair_count(n);
    let d = n - i;
    assert((d - 1) * (d - 2) >= 0) by (nonlinear_arith)
        requires
            d >= 1,
    ;
    assert(n * (n - 1) - i * (2 * n - i - 1) - 2 * (n - i - 1) == (d - 1) * (d - 2))
        by (nonlinear_arith)
        requires
            d == n - i,
    ;
    assert(2 * (start + (n - i - 1)) == (i + 1) * (2 * n - (i + 1) - 1)) by (nonlinear_arith)
        requires
            2 * start == i * (2 * n - i - 1),
    ;
}

/// Adds a value to a sum that is held as a number of times the divisor and
/// a rest below the divisor, so that the sum itself need not fit.
fn add_to_mean(whole: u128, rest: u128, value: u128, divisor: u128) -> (r: (u128, u128))
    requires
        0 < divisor <= 0x8000_0000_0000_0000_0000_0000_0000_0000,
        rest < divisor,
        value <= 0xFFFF_FFFF_FFFF_FFFF,
        whole <= 0xFFFF_FFFF_FFFF_FFFF,
    ensures
        r.0 * divisor + r.1 == whole * divisor + rest + value,
        r.1 < divisor,
{
    let added: u128 = rest + value;
    proof {
        vstd::arithmetic::div_mod::lemma_fundamental_div_mod(added as int, divisor as int);
        vstd::arithmetic::div_mod::lemma_div_nonincreasing(added as int, divisor as int);
        vstd::arithmetic::div_mod::lemma_div_pos_is_pos(added as int, divisor as int);
        vstd::arithmetic::div_mod::lemma_mod_bound(added as int, divisor as int);
        let quotient = added as int / divisor as int;
        assert((whole + quotient) * divisor == whole * divisor + divisor * quotient)
            by (nonlinear_arith);
    }
    (whole + added / divisor, added % divisor)
}

/// A sum that is a number of times the count and a rest below the count,
/// and not more than the highest value times the count, has that number as
/// its mean, which is not more than the highest value.
pub proof fn lemma_mean_of_parts(sum: int, whole: int, rest: int, count: int, highest: int)
    requires
        count > 0,
        0 <= rest < count,
        0 <= whole,
        sum == whole * count + rest,
        sum <= highest * count,
    ensures
        mean(sum, count) == whole,
        mean(-sum, count) == -whole,
        whole <= highest,
{
    vstd::arithmetic::div_mod::lemma_fundamental_div_mod_converse(sum, count, whole, rest);
    assert(whole * count >= 0) by (nonlinear_arith)
        requires
            whole >= 0,
            count > 0,
    ;
    assert(whole <= highest) by (nonlinear_arith)
        requires
            whole * count <= highest * count,
            count > 0,
    ;
    if sum == 0 {
        assert(whole == 0) by (nonlinear_arith)
            requires
                whole * count + rest == 0,
                whole >= 0,
                rest >= 0,
                count > 0,
        ;
    }
}

/// The dissonance of a sequence of pitches, with a cache for the ratios.
pub fn score_with_cache(
    pitches: &Vec<Pitch>,
    small_pythagorean_ratio: bool,
    accidental_penalty: bool,
    triad_award: bool,
    cache: &mut RatioCache,
) -> (r: ExceptionResult<Score>)
    ensures
        r is Ok <==> dissonance_score_spec(
            pitches@,
            small_pythagorean_ratio,
            accidental_penalty,
            triad_award,
        ) is Some,
        r is Ok ==> Some(r->Ok_0 as int) == dissonance_score_spec(
            pitches@,
            small_pythagorean_ratio,
            accidental_penalty,
            triad_award,
        ),
        r is Err ==> r->Err_0 is Interval || r->Err_0 is Pitch || r->Err_0 is Accidental,
        old(cache)@.submap_of(final(cache)@),
{
    let n = pitches.len();
    if n == 0 {
        return Ok(0);
    }
    let ghost given = cache@;
    let mut score_accidentals: i128 = 0;
    if accidental_penalty {
        let mut sum: i128 = 0;
        let mut k: usize = 0;
        while k < n
            invariant
                n == pitches.len(),
                k <= n,
                sum == excess_sum(pitches@, k as int),
                0 <= sum <= k * 2_200_000_000,
            decreases n - k,
        {
            let alter = pitches[k].alter();
            let size = if alter < 0 {
                -alter
            } else {
                alter
            };
            if size > SEMITONE {
                sum = sum + (size as i128);
            }
            k = k + 1;
        }
        score_accidentals = mean_of(sum, n as i128, Ghost(0), Ghost(2_200_000_000));
    }
    proof {
        lemma_pair_count(n as int);
        assert(n * (n - 1) <= 0xFFFF_FFFF_FFFF_FFFF * 0xFFFF_FFFF_FFFF_FFFE) by (nonlinear_arith)
            requires
                1 <= n <= 0xFFFF_FFFF_FFFF_FFFF,
        ;
    }
    let pairs: u128 = (n as u128) * ((n - 1) as u128) / 2;
    assert(pairs == pair_count(n as int));
    // Each term over the pairs is held as a number of times the pairs and a
    // rest: the sums themselves may be too large to hold.
    let mut ratio_whole: u128 = 0;
    let mut ratio_rest: u128 = 0;
    let mut triad_whole: u128 = 0;
    let mut triad_rest: u128 = 0;
    let ghost mut count: int = 0;
    if small_pythagorean_ratio || triad_award {
        let mut i: usize = 0;
        while i < n
            invariant
                n == pitches.len(),
                i <= n,
                pairs == pair_count(n as int),
                pairs <= 0x8000_0000_0000_0000_0000_0000_0000_0000,
                small_pythagorean_ratio || triad_award,
                given == old(cache)@,
                given.submap_of(cache@),
                2 * count == i * (2 * n - i - 1),
                0 <= count <= pairs,
                ratio_whole <= 4_300_000,
                triad_whole <= 1_000_000,
                pairs > 0 ==> ratio_rest < pairs && triad_rest < pairs,
                pairs == 0 ==> ratio_rest == 0 && triad_rest == 0 && ratio_whole == 0
                    && triad_whole == 0,
                ratio_whole * pairs + ratio_rest <= count * 4_300_000,
                triad_whole * pairs + triad_rest <= count * 1_000_000,
                small_pythagorean_ratio ==> ratio_whole * pairs + ratio_rest == pairs_sum(
                    PairTerm::Ratio,
                    pitches@,
                    i as int,
                ),
                triad_whole * pairs + triad_rest == -pairs_sum(PairTerm::Triad, pitches@, i as int),
                forall|a: int, b: int|
                    0 <= a < i && a < b < n ==> (#[trigger] pair_value(
                        PairTerm::Triad,
                        pitches@[a],
                        pitches@[b],
                    )) is Some,
                small_pythagorean_ratio ==> forall|a: int, b: int|
                    0 <= a < i && a < b < n ==> (#[trigger] pair_value(
                        PairTerm::Ratio,
                        pitches@[a],
                        pitches@[b],
                    )) is Some,
            decreases n - i,
        {
            let mut j: usize = i + 1;
            let ghost row_start = count;
            let ghost ratio_start = pairs_sum(PairTerm::Ratio, pitches@, i as int);
            let ghost triad_start = pairs_sum(PairTerm::Triad, pitches@, i as int);
            while j < n
                invariant
                    n == pitches.len(),
                    i < n,
                    i + 1 <= j <= n,
                    pairs == pair_count(n as int),
                    pairs <= 0x8000_0000_0000_0000_0000_0000_0000_0000,
                    small_pythagorean_ratio || triad_award,
                    given == old(cache)@,
                    given.submap_of(cache@),
                    2 * row_start == i * (2 * n - i - 1),
                    count == row_start + (j - i - 1),
                    0 <= count <= pairs,
                    ratio_whole <= 4_300_000,
                    triad_whole <= 1_000_000,
                    pairs > 0 ==> ratio_rest < pairs && triad_rest < pairs,
                    pairs == 0 ==> ratio_rest == 0 && triad_rest == 0 && ratio_whole == 0
                        && triad_whole == 0,
                    ratio_whole * pairs + ratio_rest <= count * 4_300_000,
                    triad_whole * pairs + triad_rest <= count * 1_000_000,
                    small_pythagorean_ratio ==> ratio_whole * pairs + ratio_rest == ratio_start
                        + row_sum(PairTerm::Ratio, pitches@, i as int, j as int),
                    triad_whole * pairs + triad_rest == -(triad_start + row_sum(
                        PairTerm::Triad,
                        pitches@,
                        i as int,
                        j as int,
                    )),
                    forall|b: int|
                        i < b < j ==> (#[trigger] pair_value(
                            PairTerm::Triad,
                            pitches@[i as int],
                            pitches@[b],
                        )) is Some,
                    small_pythagorean_ratio ==> forall|b: int|
                        i < b < j ==> (#[trigger] pair_value(
                            PairTerm::Ratio,
                            pitches@[i as int],
                            pitches@[b],
                        )) is Some,
                decreases n - j,
            {
                let ghost before = cache@;
                let scored = score_pair(&pitches[i], &pitches[j], small_pythagorean_ratio, cache);
                assert(given.submap_of(cache@)) by {
                    assert forall|k: u64| #[trigger] given.dom().contains(k) implies cache@.dom().contains(k)
                        && given[k] == cache@[k] by {
                        assert(before.dom().contains(k));
                    }
                }
                let (penalty, triad) = match scored {
                    Ok(pair) => pair,
                    Err(e) => {
                        proof {
                            let a = i as int;
                            let b = j as int;
                            if small_pythagorean_ratio {
                                assert(pair_value(PairTerm::Ratio, pitches@[a], pitches@[b]) is None);
                                assert(!all_pairs_defined(PairTerm::Ratio, pitches@));
                            } else {
                                assert(pair_value(PairTerm::Triad, pitches@[a], pitches@[b]) is None);
                                assert(!all_pairs_defined(PairTerm::Triad, pitches@));
                            }
                        }
                        return Err(e);
                    },
                };
                proof {
                    lemma_pairs_so_far(n as int, i as int, j as int + 1, row_start);
                    count = count + 1;
                }
                if small_pythagorean_ratio {
                    let (whole, rest) = add_to_mean(ratio_whole, ratio_rest, penalty as u128, pairs);
                    proof {
                        lemma_mean_of_parts(
                            whole * pairs + rest,
                            whole as int,
                            rest as int,
                            pairs as int,
                            4_300_000,
                        );
                    }
                    ratio_whole = whole;
                    ratio_rest = rest;
                }
                if triad {
                    let (whole, rest) = add_to_mean(
                        triad_whole,
                        triad_rest,
                        SEMITONE as u128,
                        pairs,
                    );
                    proof {
                        lemma_mean_of_parts(
                            whole * pairs + rest,
                            whole as int,
                            rest as int,
                            pairs as int,
                            1_000_000,
                        );
                    }
                    triad_whole = whole;
                    triad_rest = rest;
                }
                j = j + 1;
            }
            proof {
                lemma_pairs_so_far(n as int, i as int, n as int, row_start);
            }
            i = i + 1;
        }
    }
    let score_ratio: i128 = if small_pythagorean_ratio {
        proof {
            if pairs > 0 {
                lemma_mean_of_parts(
                    pairs_sum(PairTerm::Ratio, pitches@, n as int),
                    ratio_whole as int,
                    ratio_rest as int,
                    pairs as int,
                    4_300_000,
                );
            }
        }
        ratio_whole as i128
    } else {
        0
    };
    let score_triad: i128 = if triad_award {
        proof {
            if pairs > 0 {
                lemma_mean_of_parts(
                    -pairs_sum(PairTerm::Triad, pitches@, n as int),
                    triad_whole as int,
                    triad_rest as int,
                    pairs as int,
                    1_000_000,
                );
            }
        }
        -(triad_whole as i128)
    } else {
        0
    };
    let enabled: i128 = (if small_pythagorean_ratio {
        1
    } else {
        0
    }) + (if accidental_penalty {
        1
    } else {
        0
    }) + (if triad_award {
        1
    } else {
        0
    });
    let total = score_accidentals + score_ratio + score_triad;
    let score = mean_of(total, enabled, Ghost(-3_000_000_000), Ghost(3_000_000_000));
    Ok(score as Score)
}

/// The dissonance of a sequence of pitches, in millionths: lower is more
/// consonant. `small_pythagorean_ratio` enables the ratio term,
/// `accidental_penalty` the accidental term and `triad_award` the triad
/// term.
pub fn dissonance_score(
    pitches: &Vec<Pitch>,
    small_pythagorean_ratio: bool,
    accidental_penalty: bool,
    triad_award: bool,
) -> (r: ExceptionResult<Score>)
    ensures
        r is Ok <==> dissonance_score_spec(
            pitches@,
            small_pythagorean_ratio,
            accidental_penalty,
            triad_award,
        ) is Some,
        r is Ok ==> Some(r->Ok_0 as int) == dissonance_score_spec(
            pitches@,
            small_pythagorean_ratio,
            accidental_penalty,
            triad_award,
        ),
        r is Err ==> r->Err_0 is Interval || r->Err_0 is Pitch || r->Err_0 is Accidental,
{
    let mut cache = RatioCache::new();
    score_with_cache(pitches, small_pythagorean_ratio, accidental_penalty, triad_award, &mut cache)
}

/// What gives a sequence of pitches a score, of which lower is better. The
/// score depends on the sequence alone: scoring may change what the scorer
/// remembers, but not what it answers.
pub trait Scorer {
    /// The score of a sequence of pitches; `None` where scoring fails.
    spec fn score_spec(&self, pitches: Seq<Pitch>) -> Option<int>;

    fn score(&mut self, pitches: &Vec<Pitch>) -> (r: ExceptionResult<Score>)
        ensures
            r is Ok <==> old(self).score_spec(pitches@) is Some,
            r is Ok ==> Some(r->Ok_0 as int) == old(self).score_spec(pitches@),
            forall|s: Seq<Pitch>| #[trigger] final(self).score_spec(s) == old(self).score_spec(s),
    ;
}

/// The scorer of dissonance, with its three terms and a cache for the
/// ratios that it has worked out.
pub struct DissonanceScorer {
    pub small_pythagorean_ratio: bool,
    pub accidental_penalty: bool,
    pub triad_award: bool,
    pub cache: RatioCache,
}

/// A scorer of dissonance with all its terms, for contracts to speak of:
/// what it remembers does not matter to its scores.
pub open spec fn default_scorer() -> DissonanceScorer {
    DissonanceScorer {
        small_pythagorean_ratio: true,
        accidental_penalty: true,
        triad_award: true,
        cache: arbitrary(),
    }
}

impl DissonanceScorer {
    /// The scorer with all three terms, and nothing in its cache yet.
    pub fn new() -> (scorer: Self)
        ensures
            scorer.small_pythagorean_ratio,
            scorer.accidental_penalty,
            scorer.triad_award,
            scorer.cache@ == Map::<u64, RatioCacheEntry>::empty(),
    {
        DissonanceScorer::with_terms(true, true, true)
    }

    /// The scorer with the terms that are asked for, and nothing in its
    /// cache yet.
    pub fn with_terms(small_pythagorean_ratio: bool, accidental_penalty: bool, triad_award: bool) -> (scorer:
        Self)
        ensures
            scorer.small_pythagorean_ratio == small_pythagorean_ratio,
            scorer.accidental_penalty == accidental_penalty,
            scorer.triad_award == triad_award,
            scorer.cache@ == Map::<u64, RatioCacheEntry>::empty(),
    {
        DissonanceScorer {
            small_pythagorean_ratio,
            accidental_penalty,
            triad_award,
            cache: RatioCache::new(),
        }
    }

    /// How many names the scorer has found a ratio for.
    pub fn cached_names(&self) -> (n: usize)
        ensures
            n == self.cache@.len(),
    {
        self.cache.len()
    }
}

impl Scorer for DissonanceScorer {
    open spec fn score_spec(&self, pitches: Seq<Pitch>) -> Option<int> {
        dissonance_score_spec(
            pitches,
            self.small_pythagorean_ratio,
            self.accidental_penalty,
            self.triad_award,
        )
    }

    fn score(&mut self, pitches: &Vec<Pitch>) -> (r: ExceptionResult<Score>) {
        score_with_cache(
            pitches,
            self.small_pythagorean_ratio,
            self.accidental_penalty,
            self.triad_award,
            &mut self.cache,
        )
    }
}

/// Whether a function gives every sequence of pitches one answer, which
/// depends on the pitches alone.
pub open spec fn is_criterion<F: Fn(&Vec<Pitch>) -> ExceptionResult<Score>>(f: F) -> bool {
    &&& forall|pitches: &Vec<Pitch>| #[trigger] f.requires((pitches,))
    &&& forall|a: &Vec<Pitch>, b: &Vec<Pitch>, x: ExceptionResult<Score>, y: ExceptionResult<Score>|
        a@ == b@ && #[trigger] f.ensures((a,), x) && #[trigger] f.ensures((b,), y) ==> (x is Ok
            <==> y is Ok) && (x is Ok ==> x->Ok_0 == y->Ok_0)
}

/// A scorer made of a function that answers for the pitches alone.
pub struct FnScorer<F: Fn(&Vec<Pitch>) -> ExceptionResult<Score>> {
    criterion: F,
}

impl<F: Fn(&Vec<Pitch>) -> ExceptionResult<Score>> FnScorer<F> {
    #[verifier::type_invariant]
    pub closed spec fn answers_for_pitches_alone(&self) -> bool {
        is_criterion(self.criterion)
    }

    /// The function that scores.
    pub closed spec fn criterion_spec(&self) -> F {
        self.criterion
    }

    /// The scorer that asks `criterion`.
    pub fn new(criterion: F) -> (scorer: Self)
        requires
            is_criterion(criterion),
        ensures
            scorer.criterion_spec() == criterion,
    {
        FnScorer { criterion }
    }
}

/// Whether a function may answer a sequence of pitches with a score.
pub open spec fn answers_with<F: Fn(&Vec<Pitch>) -> ExceptionResult<Score>>(
    f: F,
    pitches: Seq<Pitch>,
    score: Score,
) -> bool {
    exists|v: &Vec<Pitch>| v@ == pitches && #[trigger] f.ensures((v,), Ok(score))
}

impl<F: Fn(&Vec<Pitch>) -> ExceptionResult<Score>> Scorer for FnScorer<F> {
    open spec fn score_spec(&self, pitches: Seq<Pitch>) -> Option<int> {
        if exists|score: Score| #[trigger] answers_with(self.criterion_spec(), pitches, score) {
            Some(
                (choose|score: Score| #[trigger]
                    answers_with(self.criterion_spec(), pitches, score)) as int,
            )
        } else {
            None
        }
    }

    fn score(&mut self, pitches: &Vec<Pitch>) -> (r: ExceptionResult<Score>) {
        proof {
            use_type_invariant(&*self);
        }
        let r = (self.criterion)(pitches);
        proof {
            let f = self.criterion_spec();
            assert(f.ensures((pitches,), r));
            if let Ok(score) = r {
                assert(answers_with(f, pitches@, score));
                let chosen = choose|score: Score| #[trigger] answers_with(f, pitches@, score);
                assert(answers_with(f, pitches@, chosen));
                let v = choose|v: &Vec<Pitch>| v@ == pitches@ && #[trigger] f.ensures((v,), Ok(chosen));
                assert(f.ensures((v,), Ok::<Score, Exception>(chosen)));
                assert(chosen == score);
            } else {
                if exists|score: Score| #[trigger] answers_with(f, pitches@, score) {
                    let chosen = choose|score: Score| #[trigger] answers_with(f, pitches@, score);
                    let v = choose|v: &Vec<Pitch>| v@ == pitches@ && #[trigger] f.ensures((v,), Ok(chosen));
                    assert(f.ensures((v,), Ok::<Score, Exception>(chosen)));
                    assert(false);
                }
            }
        }
        r
    }
}

} // verus!
