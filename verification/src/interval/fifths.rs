use super::pythagorean::{
    anchor_of, fifth_from, find_anchor, reference_pitch_spec, AnchorSearch, MAX_FIFTHS,
};
use super::{
    interval_transposition, lemma_transposed_distance, natural_ps_at, octaves_in, transpose_by,
    Transposition,
};
use super::pythagorean::{
    fifth_power, fifth_ratio, lemma_powers_fit, lemma_two_three_coprime, moved_fits,
    octave_power, pythagorean_ratio, ratio_of_pitch, RatioOutcome,
};
use crate::common::coprime::{
    coprime, lemma_coprime_one, lemma_coprime_pow_right, lemma_gcd_symmetric,
    lemma_lowest_terms_cancels, lemma_pow_nonnegative, lowest_terms,
};
use crate::defaults::{IntegerType, SEMITONE};
use crate::fraction_pow::{Fraction, Sign};
use vstd::arithmetic::power::{lemma_pow0, lemma_pow_adds, lemma_pow_positive, pow};
use crate::pitch::accidental::AccidentalEnum;
use crate::pitch::{
    lemma_from_ps_keeps, lemma_ps_parts, octave_span, ps_above_class, ps_pitch_class,
    quarter_tone_alter, simplest_spelling, Pitch,
};
use crate::stepname::StepName;
use vstd::prelude::*;

verus! {

/// The place of a step on the line of fifths that has C at 0: F at -1, G at
/// 1, and so on up to B at 5.
pub open spec fn step_fifths(step: StepName) -> int {
    match step {
        StepName::F => -1,
        StepName::C => 0,
        StepName::G => 1,
        StepName::D => 2,
        StepName::A => 3,
        StepName::E => 4,
        StepName::B => 5,
    }
}

/// Whether the accidental of a pitch alters by whole semitones.
pub open spec fn is_whole(p: Pitch) -> bool {
    p.accidental.alter_spec() % (SEMITONE as int) == 0
}

/// The place of a name on the line of fifths: that of its step, and seven
/// more for each semitone of its accidental.
pub open spec fn fifths_of(p: Pitch) -> int {
    step_fifths(p.step) + 7 * (p.accidental.alter_spec() / (SEMITONE as int))
}

/// Whether a pitch is one that the search by fifths passes: with an octave,
/// without microtone, with an accidental of whole semitones, and not far
/// from the reference.
pub open spec fn on_the_way(p: Pitch) -> bool {
    &&& p.microtone is None
    &&& p.octave is Some
    &&& is_whole(p)
    &&& -400 * SEMITONE <= p.ps_spec() <= 400 * SEMITONE
}

/// Names with accidentals of whole semitones have their places on the line
/// of fifths to themselves, from 29 below C to 33 above.
pub proof fn lemma_fifths_name(p: Pitch, q: Pitch)
    requires
        is_whole(p),
        is_whole(q),
    ensures
        -29 <= fifths_of(p) <= 33,
        fifths_of(p) == fifths_of(q) <==> p.same_name_spec(&q),
        fifths_of(p) >= 27 ==> p.accidental.alter_spec() == 4 * SEMITONE,
        fifths_of(p) <= -23 ==> p.accidental.alter_spec() == -4 * SEMITONE,
{
    let a = p.accidental.alter_spec() / (SEMITONE as int);
    let b = q.accidental.alter_spec() / (SEMITONE as int);
    assert(p.accidental.alter_spec() == a * SEMITONE);
    assert(q.accidental.alter_spec() == b * SEMITONE);
    assert(-4 <= a <= 4 && -4 <= b <= 4);
    if fifths_of(p) == fifths_of(q) {
        assert(a == b);
        assert(p.step == q.step);
        assert(p.accidental.kind == q.accidental.kind);
    }
}

/// The simplest spelling of a whole number of semitones has no microtone
/// and an accidental of at most one semitone.
pub proof fn lemma_from_ps_whole(ps: int)
    requires
        Pitch::ps_representable(ps),
        ps % (SEMITONE as int) == 0,
    ensures
        Pitch::from_ps_spec(ps).microtone is None,
        Pitch::from_ps_spec(ps).octave is Some,
        Pitch::from_ps_spec(ps).ps_spec() == ps,
        is_whole(Pitch::from_ps_spec(ps)),
        -SEMITONE <= Pitch::from_ps_spec(ps).accidental.alter_spec() <= SEMITONE,
{
    reveal(Pitch::from_ps_spec);
    lemma_ps_parts(ps);
    lemma_from_ps_keeps(ps);
    let spelling = simplest_spelling(ps_pitch_class(ps), 0);
    assert(quarter_tone_alter(ps_above_class(ps)) == 0);
    assert(AccidentalEnum::from_alter_spec(spelling.alter)->Some_0.alter_spec() == spelling.alter);
}

/// The step a fifth from a step, up or down.
pub open spec fn fifth_step(step: StepName, up: bool) -> StepName {
    if up {
        match step {
            StepName::C => StepName::G,
            StepName::D => StepName::A,
            StepName::E => StepName::B,
            StepName::F => StepName::C,
            StepName::G => StepName::D,
            StepName::A => StepName::E,
            StepName::B => StepName::F,
        }
    } else {
        match step {
            StepName::C => StepName::F,
            StepName::D => StepName::G,
            StepName::E => StepName::A,
            StepName::F => StepName::B,
            StepName::G => StepName::C,
            StepName::A => StepName::D,
            StepName::B => StepName::E,
        }
    }
}

/// What the accidental must add to the natural note a fifth from a pitch:
/// the alteration of the pitch, one semitone more from B upwards, and one
/// less from F downwards.
pub open spec fn fifth_alter(p: Pitch, up: bool) -> int {
    if up && p.step == StepName::B {
        p.alter_spec() + SEMITONE
    } else if !up && p.step == StepName::F {
        p.alter_spec() - SEMITONE
    } else {
        p.alter_spec()
    }
}

/// The natural note on the staff a fifth from a pitch: its step, and how far
/// its pitch-space value lies from that of the pitch moved by seven
/// semitones.
pub proof fn lemma_fifth_on_staff(p: Pitch, up: bool)
    ensures
        ({
            let place = p.diatonic_note_num_spec() + (if up {
                4int
            } else {
                -4int
            });
            let target = p.ps_spec() + (if up {
                7int
            } else {
                -7int
            }) * SEMITONE;
            &&& StepName::at((place - 1) % 7) == fifth_step(p.step, up)
            &&& target - natural_ps_at(place) == fifth_alter(p, up)
            &&& -1 <= (place - 1) / 7 - p.implicit_octave_spec() <= 1
        }),
{
    let distance: int = if up {
        4
    } else {
        -4
    };
    let index = p.step.index();
    let octave = p.implicit_octave_spec();
    let place = p.diatonic_note_num_spec() + distance;
    assert(place - 1 == index + distance + 7 * octave);
    let shifted = index + distance;
    if shifted >= 7 {
        vstd::arithmetic::div_mod::lemma_fundamental_div_mod_converse(
            place - 1,
            7,
            octave + 1,
            shifted - 7,
        );
    } else if shifted < 0 {
        vstd::arithmetic::div_mod::lemma_fundamental_div_mod_converse(
            place - 1,
            7,
            octave - 1,
            shifted + 7,
        );
    } else {
        vstd::arithmetic::div_mod::lemma_fundamental_div_mod_converse(place - 1, 7, octave, shifted);
    }
}

/// A fifth from a pitch on the way leads to a pitch with an octave, without
/// microtone and with an accidental of whole semitones, seven semitones
/// away. Its name is the next on the line of fifths where that has a name;
/// where it has none, the pitch takes its simplest spelling. Upwards the
/// accidental does not fall below the lesser of what it was and a flat,
/// downwards it does not rise above the greater of what it was and a sharp.
#[verifier::rlimit(60)]
pub proof fn lemma_fifth_step(p: Pitch, up: bool)
    requires
        p.microtone is None,
        p.octave is Some,
        is_whole(p),
        -1_000 * SEMITONE <= p.ps_spec() <= 1_000 * SEMITONE,
    ensures
        fifth_from(p, up) matches Transposition::To(q) && {
            &&& q.microtone is None
            &&& q.octave is Some
            &&& is_whole(q)
            &&& up ==> q.ps_spec() == p.ps_spec() + 7 * SEMITONE
            &&& !up ==> q.ps_spec() == p.ps_spec() - 7 * SEMITONE
            &&& up && fifths_of(p) + 1 <= 33 ==> fifths_of(q) == fifths_of(p) + 1
            &&& !up && fifths_of(p) - 1 >= -29 ==> fifths_of(q) == fifths_of(p) - 1
            &&& up ==> q.accidental.alter_spec() >= p.accidental.alter_spec()
                || q.accidental.alter_spec() >= -SEMITONE
            &&& !up ==> q.accidental.alter_spec() <= p.accidental.alter_spec()
                || q.accidental.alter_spec() <= SEMITONE
        },
{
    let distance: int = if up {
        4
    } else {
        -4
    };
    let semitones: int = if up {
        7
    } else {
        -7
    };
    assert(fifth_from(p, up) == transpose_by(p, distance, semitones, Some(4int))) by {
        reveal(interval_transposition);
    }
    let a = p.accidental.alter_spec() / (SEMITONE as int);
    assert(p.accidental.alter_spec() == a * SEMITONE);
    assert(-4 <= a <= 4);
    let place = p.diatonic_note_num_spec() + distance;
    let target_ps = p.ps_spec() + semitones * SEMITONE;
    lemma_fifth_on_staff(p, up);
    let raw = target_ps - natural_ps_at(place);
    assert(raw == fifth_alter(p, up));
    assert(-5 * SEMITONE <= raw <= 5 * SEMITONE);
    assert(octaves_in(raw) == 0);
    assert(target_ps % (SEMITONE as int) == 0) by {
        let whole = ((p.implicit_octave_spec() + 1) * 12 + p.step.ref_spec()) + a + semitones;
        assert(target_ps == whole * SEMITONE) by (nonlinear_arith)
            requires
                target_ps == ((p.implicit_octave_spec() + 1) * 12 + p.step.ref_spec()) * SEMITONE
                    + a * SEMITONE + semitones * SEMITONE,
                whole == ((p.implicit_octave_spec() + 1) * 12 + p.step.ref_spec()) + a + semitones,
        ;
        vstd::arithmetic::div_mod::lemma_mod_multiples_basic(whole, SEMITONE as int);
    }
    assert(Pitch::ps_representable(target_ps)) by {
        vstd::arithmetic::div_mod::lemma_fundamental_div_mod(target_ps, octave_span());
    }
    lemma_from_ps_whole(target_ps);
    lemma_transposed_distance(p, distance, semitones, Some(4int));
    let moved = transpose_by(p, distance, semitones, Some(4int));
    let octaves = octaves_in(raw);
    let alter = raw - octaves * octave_span();
    assert(octaves == 0);
    assert(octaves * octave_span() == 0) by (nonlinear_arith)
        requires
            octaves == 0,
    ;
    assert(alter == raw);
    let size = if alter < 0 {
        -alter
    } else {
        alter
    };
    let limit = 4int * SEMITONE;
    assert(limit == 4_000_000);
    if raw > 4 * SEMITONE || raw < -4 * SEMITONE {
        assert(size > limit);
        assert(moved == Transposition::To(Pitch::from_ps_spec(target_ps)));
    } else {
        assert(AccidentalEnum::from_alter_spec(raw) is Some);
        let kind = AccidentalEnum::from_alter_spec(raw)->Some_0;
        assert(kind.alter_spec() == raw);
        assert(-100 <= p.implicit_octave_spec() <= 100);
        assert(-101 <= (place - 1) / 7 <= 101);
        assert(size <= limit);
        assert(moved is To);
        let q = moved->To_0;
        assert(q.accidental.kind == kind);
        assert(q.step == fifth_step(p.step, up));
        assert(raw == (raw / (SEMITONE as int)) * SEMITONE);
    }
}

/// The search for the anchor of a name with an accidental of whole
/// semitones, seen from `counter` fifths away: it ends at the name's place
/// on the line of fifths, with a pitch of that name as many fifths from the
/// reference.
pub proof fn lemma_search_ends(wanted: Pitch, up: Pitch, down: Pitch, counter: int)
    requires
        is_whole(wanted),
        0 <= counter <= MAX_FIFTHS,
        counter <= fifths_of(wanted) || counter <= -fifths_of(wanted),
        on_the_way(up),
        on_the_way(down),
        up.ps_spec() == reference_pitch_spec().ps_spec() + 7 * counter * SEMITONE,
        down.ps_spec() == reference_pitch_spec().ps_spec() - 7 * counter * SEMITONE,
        counter <= 33 ==> fifths_of(up) == counter,
        counter <= 29 ==> fifths_of(down) == -counter,
        counter >= 30 ==> down.accidental.alter_spec() <= SEMITONE,
    ensures
        find_anchor(wanted, up, down, counter) matches AnchorSearch::Found { anchor, fifths } && {
            &&& fifths == fifths_of(wanted)
            &&& anchor.same_name_spec(&wanted)
            &&& anchor.ps_spec() == reference_pitch_spec().ps_spec() + 7 * fifths * SEMITONE
            &&& anchor.octave is Some
            &&& anchor.microtone is None
        },
    decreases MAX_FIFTHS - counter,
{
    let k = fifths_of(wanted);
    lemma_fifths_name(wanted, up);
    lemma_fifths_name(wanted, down);
    lemma_fifths_name(up, wanted);
    lemma_fifths_name(down, wanted);
    if up.same_name_spec(&wanted) {
        assert(fifths_of(up) == k);
        assert(counter == k);
    } else if down.same_name_spec(&wanted) {
        assert(fifths_of(down) == k);
        if counter >= 30 {
            assert(k >= 30);
            assert(false);
        }
        assert(k == -counter);
    } else {
        assert(counter != k && counter != -k) by {
            if counter == k {
                assert(fifths_of(up) == k);
            }
            if counter == -k {
                assert(counter <= 29);
                assert(fifths_of(down) == k);
            }
        }
        assert(counter < 33);
        lemma_fifth_step(up, true);
        lemma_fifth_step(down, false);
        let higher = fifth_from(up, true)->To_0;
        let lower = fifth_from(down, false)->To_0;
        assert(higher.ps_spec() == reference_pitch_spec().ps_spec() + 7 * (counter + 1) * SEMITONE)
            by (nonlinear_arith)
            requires
                higher.ps_spec() == up.ps_spec() + 7 * SEMITONE,
                up.ps_spec() == reference_pitch_spec().ps_spec() + 7 * counter * SEMITONE,
        ;
        assert(lower.ps_spec() == reference_pitch_spec().ps_spec() - 7 * (counter + 1) * SEMITONE)
            by (nonlinear_arith)
            requires
                lower.ps_spec() == down.ps_spec() - 7 * SEMITONE,
                down.ps_spec() == reference_pitch_spec().ps_spec() - 7 * counter * SEMITONE,
        ;
        assert(7 * (counter + 1) * SEMITONE <= 7 * 36 * SEMITONE) by (nonlinear_arith)
            requires
                0 <= counter < 36,
                SEMITONE == 1_000_000,
        ;
        assert(7 * (counter + 1) * SEMITONE >= 0) by (nonlinear_arith)
            requires
                0 <= counter < 36,
                SEMITONE == 1_000_000,
        ;
        lemma_search_ends(wanted, higher, lower, counter + 1);
    }
}

/// The search for the anchor of a name with an accidental that is not of
/// whole semitones finds none within its bound.
pub proof fn lemma_search_exhausts(wanted: Pitch, up: Pitch, down: Pitch, counter: int)
    requires
        !is_whole(wanted),
        0 <= counter <= MAX_FIFTHS,
        on_the_way(up),
        on_the_way(down),
        up.ps_spec() == reference_pitch_spec().ps_spec() + 7 * counter * SEMITONE,
        down.ps_spec() == reference_pitch_spec().ps_spec() - 7 * counter * SEMITONE,
    ensures
        find_anchor(wanted, up, down, counter) is Exhausted,
    decreases MAX_FIFTHS - counter,
{
    if counter < MAX_FIFTHS {
        lemma_fifth_step(up, true);
        lemma_fifth_step(down, false);
        let higher = fifth_from(up, true)->To_0;
        let lower = fifth_from(down, false)->To_0;
        assert(higher.ps_spec() == reference_pitch_spec().ps_spec() + 7 * (counter + 1) * SEMITONE)
            by (nonlinear_arith)
            requires
                higher.ps_spec() == up.ps_spec() + 7 * SEMITONE,
                up.ps_spec() == reference_pitch_spec().ps_spec() + 7 * counter * SEMITONE,
        ;
        assert(lower.ps_spec() == reference_pitch_spec().ps_spec() - 7 * (counter + 1) * SEMITONE)
            by (nonlinear_arith)
            requires
                lower.ps_spec() == down.ps_spec() - 7 * SEMITONE,
                down.ps_spec() == reference_pitch_spec().ps_spec() - 7 * counter * SEMITONE,
        ;
        assert(0 <= 7 * (counter + 1) * SEMITONE <= 7 * 36 * SEMITONE) by (nonlinear_arith)
            requires
                0 <= counter < 36,
                SEMITONE == 1_000_000,
        ;
        lemma_search_exhausts(wanted, higher, lower, counter + 1);
    }
}

/// The anchor of a name lies on the line of fifths: a name with an
/// accidental of whole semitones has for its anchor the pitch of that name
/// as many fifths from the reference as the name lies from C on the line of
/// fifths, and any other name has no anchor.
pub proof fn lemma_anchor_on_the_line(wanted: Pitch)
    ensures
        is_whole(wanted) ==> (anchor_of(wanted) matches AnchorSearch::Found { anchor, fifths } && {
            &&& fifths == fifths_of(wanted)
            &&& -29 <= fifths <= 33
            &&& anchor.same_name_spec(&wanted)
            &&& anchor.ps_spec() == reference_pitch_spec().ps_spec() + 7 * fifths * SEMITONE
        }),
        !is_whole(wanted) ==> anchor_of(wanted) is Exhausted,
{
    let start = reference_pitch_spec();
    assert(start.ps_spec() == 24 * SEMITONE);
    assert(is_whole(start));
    assert(fifths_of(start) == 0);
    if is_whole(wanted) {
        lemma_fifths_name(wanted, wanted);
        lemma_search_ends(wanted, start, start, 0);
    } else {
        lemma_search_exhausts(wanted, start, start, 0);
    }
}

/// The number that is not negative of a whole number: 0 for a negative one.
pub open spec fn positive_part(n: int) -> nat {
    if n > 0 {
        n as nat
    } else {
        0
    }
}

/// The ratio of a power of 3 times a power of 2, as numerator and
/// denominator: the powers with exponents that are not negative in the
/// numerator, the others turned over in the denominator.
pub open spec fn three_limit(threes: int, twos: int) -> (int, int) {
    (
        pow(3, positive_part(threes)) * pow(2, positive_part(twos)),
        pow(3, positive_part(-threes)) * pow(2, positive_part(-twos)),
    )
}

/// A number without the factor 2, times a power of 2, over a power of 2:
/// the powers of 2 cancel as far as they go, and so they do where the
/// fraction is turned over.
pub proof fn lemma_cancel_twos(c: nat, x: nat, y: nat)
    requires
        c > 0,
        coprime(c, 2),
    ensures
        ({
            let least = if x <= y {
                x
            } else {
                y
            };
            let numer = c * pow(2, (x - least) as nat);
            let denom = pow(2, (y - least) as nat);
            &&& lowest_terms((c * pow(2, x)) as nat, pow(2, y) as nat) == (
                numer as nat,
                denom as nat,
            )
            &&& lowest_terms(pow(2, y) as nat, (c * pow(2, x)) as nat) == (
                denom as nat,
                numer as nat,
            )
            &&& 0 < numer <= c * pow(2, x)
            &&& 0 < denom <= pow(2, y)
        }),
{
    let least = if x <= y {
        x
    } else {
        y
    };
    let common = pow(2, least) as nat;
    let left = pow(2, (x - least) as nat) as nat;
    let denom = pow(2, (y - least) as nat) as nat;
    let numer = c * left;
    lemma_pow_positive(2, least);
    lemma_pow_positive(2, (x - least) as nat);
    lemma_pow_positive(2, (y - least) as nat);
    lemma_pow_positive(2, x);
    lemma_pow_positive(2, y);
    lemma_pow_adds(2, least, (x - least) as nat);
    lemma_pow_adds(2, least, (y - least) as nat);
    lemma_pow0(2);
    assert(coprime(numer, denom)) by {
        if y == least {
            assert(denom == 1);
            lemma_coprime_one(numer);
            lemma_gcd_symmetric(1, numer);
        } else {
            assert(left == 1);
            assert(numer == c) by (nonlinear_arith)
                requires
                    numer == c * left,
                    left == 1,
            ;
            lemma_coprime_pow_right(c, 2, (y - least) as nat);
        }
    }
    assert(c * pow(2, x) == common * numer) by (nonlinear_arith)
        requires
            pow(2, x) == common * left,
            numer == c * left,
    ;
    assert(pow(2, y) == common * denom);
    assert(numer > 0) by (nonlinear_arith)
        requires
            numer == c * left,
            c > 0,
            left > 0,
    ;
    assert(common * numer >= numer && common * denom >= denom) by (nonlinear_arith)
        requires
            common >= 1,
            numer >= 0,
            denom >= 0,
    ;
    lemma_lowest_terms_cancels(common, numer, denom);
    lemma_gcd_symmetric(numer, denom);
    lemma_lowest_terms_cancels(common, denom, numer);
    assert(c * pow(2, (x - least) as nat) == numer);
    assert(pow(2, (y - least) as nat) == denom);
}

/// The ratio of some fifths and some octaves, in powers of 3 and 2: 3 to the
/// number of the fifths, times 2 to the number of the octaves less that of
/// the fifths.
pub proof fn lemma_ratio_in_powers(fifths: int, octaves: int)
    requires
        -MAX_FIFTHS <= fifths <= MAX_FIFTHS,
        moved_fits(fifth_ratio(fifths), octaves),
    ensures
        0 < three_limit(fifths, octaves - fifths).0 <= IntegerType::MAX,
        0 < three_limit(fifths, octaves - fifths).1 <= IntegerType::MAX,
        pythagorean_ratio(fifths, octaves) == Fraction::Rational(
            Sign::Plus,
            three_limit(fifths, octaves - fifths).0 as IntegerType,
            three_limit(fifths, octaves - fifths).1 as IntegerType,
        ),
{
    let size: nat = if fifths < 0 {
        (-fifths) as nat
    } else {
        fifths as nat
    };
    let far: nat = if octaves < 0 {
        (-octaves) as nat
    } else {
        octaves as nat
    };
    lemma_powers_fit(size);
    lemma_powers_fit(far);
    lemma_two_three_coprime();
    lemma_pow0(2);
    lemma_pow0(3);
    let threes = pow(3, size) as nat;
    lemma_coprime_pow_right(2, 3, size);
    lemma_gcd_symmetric(2, threes);
    assert(coprime(threes, 2));
    let numer = fifth_power(fifths).0 * octave_power(octaves).0;
    let denom = fifth_power(fifths).1 * octave_power(octaves).1;
    assert(fifth_ratio(fifths)->Rational_1 == fifth_power(fifths).0);
    assert(fifth_ratio(fifths)->Rational_2 == fifth_power(fifths).1);
    let twos = octaves - fifths;
    let limit = three_limit(fifths, twos);
    lemma_pow_positive(3, size);
    if fifths >= 0 {
        assert(positive_part(fifths) == size && positive_part(-fifths) == 0);
        // 3 to the fifths, times 2 to the octaves, over 2 to the fifths
        let x: nat = if octaves >= 0 {
            far
        } else {
            0
        };
        let y: nat = if octaves >= 0 {
            size
        } else {
            size + far
        };
        let least = if x <= y {
            x
        } else {
            y
        };
        lemma_pow_adds(2, size, far);
        lemma_cancel_twos(threes, x, y);
        assert(positive_part(twos) == x - least && positive_part(-twos) == y - least);
        assert(numer == threes * pow(2, x)) by (nonlinear_arith)
            requires
                numer == threes * octave_power(octaves).0,
                octave_power(octaves).0 == pow(2, x),
        ;
        assert(denom == pow(2, y)) by (nonlinear_arith)
            requires
                denom == pow(2, size) * octave_power(octaves).1,
                octaves >= 0 ==> octave_power(octaves).1 == 1 && y == size,
                octaves < 0 ==> octave_power(octaves).1 == pow(2, far) && pow(2, y) == pow(2, size)
                    * pow(2, far),
        ;
        assert(limit.0 == threes * pow(2, (x - least) as nat));
        assert(limit.1 == pow(2, (y - least) as nat)) by (nonlinear_arith)
            requires
                limit.1 == pow(3, 0) * pow(2, (y - least) as nat),
                pow(3, 0) == 1,
        ;
        assert(numer <= IntegerType::MAX && denom <= IntegerType::MAX);
        assert(0 < limit.0 <= numer);
        assert(0 < limit.1 <= denom);
        assert(lowest_terms(numer as nat, denom as nat) == (limit.0 as nat, limit.1 as nat));
    } else {
        assert(positive_part(fifths) == 0 && positive_part(-fifths) == size);
        // 2 to the fifths, times 2 to the octaves, over 3 to the fifths
        let x: nat = if octaves >= 0 {
            0
        } else {
            far
        };
        let y: nat = if octaves >= 0 {
            size + far
        } else {
            size
        };
        let least = if x <= y {
            x
        } else {
            y
        };
        lemma_pow_adds(2, size, far);
        lemma_cancel_twos(threes, x, y);
        assert(positive_part(twos) == y - least && positive_part(-twos) == x - least);
        assert(denom == threes * pow(2, x)) by (nonlinear_arith)
            requires
                denom == threes * octave_power(octaves).1,
                octave_power(octaves).1 == pow(2, x),
        ;
        assert(numer == pow(2, y)) by (nonlinear_arith)
            requires
                numer == pow(2, size) * octave_power(octaves).0,
                octaves < 0 ==> octave_power(octaves).0 == 1 && y == size,
                octaves >= 0 ==> octave_power(octaves).0 == pow(2, far) && pow(2, y) == pow(
                    2,
                    size,
                ) * pow(2, far),
        ;
        assert(limit.1 == threes * pow(2, (x - least) as nat));
        assert(limit.0 == pow(2, (y - least) as nat)) by (nonlinear_arith)
            requires
                limit.0 == pow(3, 0) * pow(2, (y - least) as nat),
                pow(3, 0) == 1,
        ;
        assert(numer <= IntegerType::MAX && denom <= IntegerType::MAX);
        assert(0 < limit.0 <= numer);
        assert(0 < limit.1 <= denom);
        assert(lowest_terms(numer as nat, denom as nat) == (limit.0 as nat, limit.1 as nat));
    }
}

/// The whole octaves by which a pitch lies above the pitch of its name that
/// is reached from the reference by fifths alone.
pub open spec fn octaves_from_anchor(wanted: Pitch) -> int {
    octaves_in(
        wanted.ps_spec() - (reference_pitch_spec().ps_spec() + 7 * fifths_of(wanted) * SEMITONE),
    )
}

/// The ratio of a pitch to the reference, in powers of 3 and 2. A pitch
/// with an accidental of whole semitones, `k` fifths from C on the line of
/// fifths and `o` octaves above the pitch of its name that is `k` fifths
/// from the reference, has the ratio 3 to the `k` times 2 to the `o - k`,
/// where that can be worked out; a pitch with any other accidental has no
/// ratio.
pub open spec fn ratio_on_the_line(wanted: Pitch) -> RatioOutcome {
    let fifths = fifths_of(wanted);
    let octaves = octaves_from_anchor(wanted);
    if !is_whole(wanted) {
        RatioOutcome::NoAnchor
    } else if !moved_fits(fifth_ratio(fifths), octaves) {
        RatioOutcome::TooLarge
    } else {
        RatioOutcome::Ratio(
            Fraction::Rational(
                Sign::Plus,
                three_limit(fifths, octaves - fifths).0 as IntegerType,
                three_limit(fifths, octaves - fifths).1 as IntegerType,
            ),
        )
    }
}

/// The ratio that the search by fifths comes to is the ratio of the place
/// on the line of fifths.
pub proof fn lemma_ratio_of_pitch(wanted: Pitch)
    ensures
        ratio_of_pitch(wanted) == ratio_on_the_line(wanted),
{
    lemma_anchor_on_the_line(wanted);
    if is_whole(wanted) && moved_fits(
        fifth_ratio(fifths_of(wanted)),
        octaves_from_anchor(wanted),
    ) {
        lemma_ratio_in_powers(fifths_of(wanted), octaves_from_anchor(wanted));
    }
}

} // verus!
