use super::diatonicinterval::DiatonicInterval;
use super::genericinterval::GenericInterval;
use super::specifier::Specifier;
use super::{
    interval_transposition, octaves_in, split_octaves, transposed_as, Interval, Transposition,
};
use crate::common::coprime::{lemma_coprime_one, lowest_terms};
use crate::common::math::gcd_spec;
use crate::defaults::{IntegerType, SEMITONE};
use crate::exception::{Exception, ExceptionResult};
use crate::fraction_pow::{Fraction, Sign};
use crate::pitch::accidental::Accidental;
use crate::pitch::Pitch;
use crate::stepname::StepName;
use std::collections::HashMap;
use vstd::arithmetic::power::pow;
use vstd::prelude::*;
use vstd::string::*;

verus! {

/// The most fifths that the search for an anchor goes from the reference,
/// either way.
pub const MAX_FIFTHS: IntegerType = 36;

/// The most octaves, either way, by which a ratio is moved.
pub const MAX_OCTAVES: IntegerType = 62;

/// The ratio of a number of pure fifths, as numerator and denominator: 3 to
/// 2 for each fifth up, 2 to 3 for each fifth down.
pub open spec fn fifth_power(fifths: int) -> (int, int) {
    if fifths >= 0 {
        (pow(3, fifths as nat), pow(2, fifths as nat))
    } else {
        (pow(2, (-fifths) as nat), pow(3, (-fifths) as nat))
    }
}

/// The ratio of a number of octaves, as numerator and denominator: 2 to 1
/// for each octave up, 1 to 2 for each octave down.
pub open spec fn octave_power(octaves: int) -> (int, int) {
    if octaves >= 0 {
        (pow(2, octaves as nat), 1)
    } else {
        (1, pow(2, (-octaves) as nat))
    }
}

/// The ratio of a number of pure fifths as a fraction.
pub open spec fn fifth_ratio(fifths: int) -> Fraction {
    Fraction::Rational(
        Sign::Plus,
        fifth_power(fifths).0 as IntegerType,
        fifth_power(fifths).1 as IntegerType,
    )
}

/// Whether a positive ratio can be moved by a number of octaves: the
/// products of the numerators and of the denominators must fit.
pub open spec fn moved_fits(ratio: Fraction, octaves: int) -> bool {
    &&& -MAX_OCTAVES <= octaves <= MAX_OCTAVES
    &&& ratio->Rational_1 * octave_power(octaves).0 <= IntegerType::MAX
    &&& ratio->Rational_2 * octave_power(octaves).1 <= IntegerType::MAX
}

/// A positive ratio moved by a number of octaves: times 2 for each octave
/// up, by 2 for each octave down, in lowest terms.
pub open spec fn moved_ratio(ratio: Fraction, octaves: int) -> Fraction {
    let terms = lowest_terms(
        (ratio->Rational_1 * octave_power(octaves).0) as nat,
        (ratio->Rational_2 * octave_power(octaves).1) as nat,
    );
    Fraction::Rational(Sign::Plus, terms.0 as IntegerType, terms.1 as IntegerType)
}

/// The ratio of a number of pure fifths, moved by a number of octaves, in
/// lowest terms.
pub open spec fn pythagorean_ratio(fifths: int, octaves: int) -> Fraction {
    moved_ratio(fifth_ratio(fifths), octaves)
}

/// The pitch that all ratios are counted from: the C of the first octave.
pub open spec fn reference_pitch_spec() -> Pitch {
    Pitch {
        step: StepName::C,
        octave: Some(1),
        accidental: Accidental { kind: crate::pitch::accidental::AccidentalEnum::Natural },
        microtone: None,
        spelling_is_inferred: false,
    }
}

/// A pitch moved by a perfect fifth, up or down.
pub open spec fn fifth_from(p: Pitch, up: bool) -> Transposition {
    interval_transposition(
        false,
        if up {
            5
        } else {
            -5
        },
        if up {
            7
        } else {
            -7
        },
        p,
        Some(4int),
    )
}

/// What the search for an anchor comes to: the pitch of the wanted name and
/// the fifths it lies from the reference, negative downwards; or no such
/// pitch within the bound; or a fifth that could not be taken.
pub enum AnchorSearch {
    Found { anchor: Pitch, fifths: int },
    Exhausted,
    Broken(Transposition),
}

/// The search for the pitch that has the name of `wanted`, from `counter`
/// fifths away: the pitch `up` is looked at first, then the pitch `down`,
/// then both move a fifth further.
pub open spec fn find_anchor(wanted: Pitch, up: Pitch, down: Pitch, counter: int) -> AnchorSearch
    decreases MAX_FIFTHS - counter,
{
    if up.same_name_spec(&wanted) {
        AnchorSearch::Found { anchor: up, fifths: counter }
    } else if down.same_name_spec(&wanted) {
        AnchorSearch::Found { anchor: down, fifths: -counter }
    } else if counter >= MAX_FIFTHS {
        AnchorSearch::Exhausted
    } else {
        match fifth_from(up, true) {
            Transposition::To(higher) => match fifth_from(down, false) {
                Transposition::To(lower) => find_anchor(wanted, higher, lower, counter + 1),
                failed => AnchorSearch::Broken(failed),
            },
            failed => AnchorSearch::Broken(failed),
        }
    }
}

/// The anchor of the name of `wanted`: the first pitch of that name on the
/// way from the reference by fifths, up and down in turn.
pub open spec fn anchor_of(wanted: Pitch) -> AnchorSearch {
    find_anchor(wanted, reference_pitch_spec(), reference_pitch_spec(), 0)
}

/// What the ratio of a pitch to the reference comes to.
pub enum RatioOutcome {
    Ratio(Fraction),
    NoAnchor,
    Broken(Transposition),
    TooLarge,
}

/// The ratio of a pitch to the reference: that of the fifths to the anchor
/// of its name, moved by the whole octaves between the anchor and the pitch.
pub open spec fn ratio_of_pitch(wanted: Pitch) -> RatioOutcome {
    match anchor_of(wanted) {
        AnchorSearch::Exhausted => RatioOutcome::NoAnchor,
        AnchorSearch::Broken(failed) => RatioOutcome::Broken(failed),
        AnchorSearch::Found { anchor, fifths } => {
            let octaves = octaves_in(wanted.ps_spec() - anchor.ps_spec());
            if moved_fits(fifth_ratio(fifths), octaves) {
                RatioOutcome::Ratio(pythagorean_ratio(fifths, octaves))
            } else {
                RatioOutcome::TooLarge
            }
        },
    }
}

/// The ratio of the pitch that a transposition of the reference comes to.
pub open spec fn ratio_of_transposition(moved: Transposition) -> RatioOutcome {
    match moved {
        Transposition::To(wanted) => ratio_of_pitch(wanted),
        failed => RatioOutcome::Broken(failed),
    }
}

/// The ratio of an interval in pure fifths and octaves: that of the pitch
/// which the interval reaches from the reference.
pub open spec fn ratio_of_interval(interval: Interval) -> RatioOutcome {
    ratio_of_transposition(interval.transposition(reference_pitch_spec(), Some(4int)))
}

/// A result says what a ratio comes to: the ratio, or the error of an
/// interval where no anchor is found or the ratio is too large, or the error
/// of the transposition that failed.
pub open spec fn ratio_result_as(r: ExceptionResult<Fraction>, outcome: RatioOutcome) -> bool {
    match outcome {
        RatioOutcome::Ratio(ratio) => r is Ok && r->Ok_0 == ratio,
        RatioOutcome::NoAnchor => r is Err && r->Err_0 is Interval,
        RatioOutcome::TooLarge => r is Err && r->Err_0 is Interval,
        RatioOutcome::Broken(failed) => r is Err && match failed {
            Transposition::NoSuchAccidental => r->Err_0 is Accidental,
            _ => r->Err_0 is Pitch,
        },
    }
}

/// Powers of 2 and of 3 up to the bounds of the search fit.
pub proof fn lemma_powers_fit(exp: nat)
    ensures
        exp <= MAX_FIFTHS ==> 0 < pow(3, exp) <= 150094635296999121,
        exp <= MAX_OCTAVES ==> 0 < pow(2, exp) <= 0x4000_0000_0000_0000,
        pow(1, exp) == 1,
{
    vstd::arithmetic::power::lemma1_pow(exp);
    vstd::arithmetic::power::lemma_pow_positive(3, exp);
    vstd::arithmetic::power::lemma_pow_positive(2, exp);
    if exp <= MAX_OCTAVES {
        vstd::arithmetic::power::lemma_pow_increases(2, exp, 62);
        vstd::arithmetic::power2::lemma_pow2(62);
        vstd::arithmetic::power2::lemma2_to64_rest();
    }
    if exp <= MAX_FIFTHS {
        vstd::arithmetic::power::lemma_pow_increases(3, exp, 36);
        vstd::arithmetic::power::lemma_pow1(3);
        vstd::arithmetic::power::lemma_pow_adds(3, 1, 1);
        vstd::arithmetic::power::lemma_pow_adds(3, 2, 2);
        vstd::arithmetic::power::lemma_pow_adds(3, 4, 4);
        vstd::arithmetic::power::lemma_pow_adds(3, 8, 1);
        vstd::arithmetic::power::lemma_pow_adds(3, 9, 9);
        vstd::arithmetic::power::lemma_pow_adds(3, 18, 18);
        assert(pow(3, 2) == 9) by (nonlinear_arith)
            requires
                pow(3, 2) == pow(3, 1) * pow(3, 1),
                pow(3, 1) == 3,
        ;
        assert(pow(3, 4) == 81) by (nonlinear_arith)
            requires
                pow(3, 4) == pow(3, 2) * pow(3, 2),
                pow(3, 2) == 9,
        ;
        assert(pow(3, 8) == 6561) by (nonlinear_arith)
            requires
                pow(3, 8) == pow(3, 4) * pow(3, 4),
                pow(3, 4) == 81,
        ;
        assert(pow(3, 9) == 19683) by (nonlinear_arith)
            requires
                pow(3, 9) == pow(3, 8) * pow(3, 1),
                pow(3, 8) == 6561,
                pow(3, 1) == 3,
        ;
        assert(pow(3, 18) == 387420489) by (nonlinear_arith)
            requires
                pow(3, 18) == pow(3, 9) * pow(3, 9),
                pow(3, 9) == 19683,
        ;
        assert(pow(3, 36) == 150094635296999121) by (nonlinear_arith)
            requires
                pow(3, 36) == pow(3, 18) * pow(3, 18),
                pow(3, 18) == 387420489,
        ;
    }
}

/// 2 and 3 have no common divisor.
pub proof fn lemma_two_three_coprime()
    ensures
        gcd_spec(3, 2) == 1,
        gcd_spec(2, 3) == 1,
        gcd_spec(2, 1) == 1,
        gcd_spec(1, 2) == 1,
{
    reveal_with_fuel(gcd_spec, 5);
}

/// The pitch that all ratios are counted from.
pub fn reference_pitch() -> (p: Pitch)
    ensures
        p == reference_pitch_spec(),
{
    Pitch::natural(StepName::C, Some(1))
}

/// The perfect fifth, up or down.
pub fn perfect_fifth(up: bool) -> (interval: Interval)
    ensures
        !interval.implicit_diatonic,
        interval.diatonic.specifier == Specifier::Perfect,
        interval.diatonic.generic.value_spec() == if up {
            5int
        } else {
            -5int
        },
        interval.chromatic.semitones == if up {
            7int
        } else {
            -7int
        },
{
    let size: IntegerType = if up {
        5
    } else {
        -5
    };
    let generic = match GenericInterval::from_int(size) {
        Ok(generic) => generic,
        Err(_) => GenericInterval::unison(),
    };
    let diatonic = DiatonicInterval::new(Specifier::Perfect, &generic);
    match Interval::from_diatonic(diatonic) {
        Ok(interval) => interval,
        Err(_) => Interval::from_semitones(0),
    }
}

/// The ratio of a number of pure fifths, from none to the bound of the
/// search, upwards or downwards.
pub fn ratio_of_fifths(counter: IntegerType, up: bool) -> (ratio: Fraction)
    requires
        0 <= counter <= MAX_FIFTHS,
    ensures
        ratio.well_formed(),
        ratio == fifth_ratio(
            if up {
                counter as int
            } else {
                -counter
            },
        ),
{
    proof {
        lemma_two_three_coprime();
        lemma_powers_fit(counter as nat);
        vstd::arithmetic::power::lemma_pow0(2);
        vstd::arithmetic::power::lemma_pow0(3);
        assert(Fraction::new_spec(3, 2) == Fraction::Rational(Sign::Plus, 3, 2));
        assert(Fraction::new_spec(2, 3) == Fraction::Rational(Sign::Plus, 2, 3));
    }
    if up {
        Fraction::new(3, 2).powi(counter)
    } else {
        Fraction::new(2, 3).powi(counter)
    }
}

/// The anchor of the name of `wanted` and the ratio of the fifths that it
/// lies from the reference.
pub fn search_anchor(wanted: &Pitch) -> (r: ExceptionResult<(Pitch, Fraction)>)
    ensures
        match anchor_of(*wanted) {
            AnchorSearch::Found { anchor, fifths } => {
                &&& r is Ok
                &&& r->Ok_0.0 == anchor
                &&& -MAX_FIFTHS <= fifths <= MAX_FIFTHS
                &&& r->Ok_0.1.well_formed()
                &&& r->Ok_0.1 == fifth_ratio(fifths)
            },
            AnchorSearch::Exhausted => r is Err && r->Err_0 is Interval,
            AnchorSearch::Broken(failed) => r is Err && match failed {
                Transposition::NoSuchAccidental => r->Err_0 is Accidental,
                _ => r->Err_0 is Pitch,
            },
        },
{
    let start_pitch = reference_pitch();
    let fifth_up = perfect_fifth(true);
    let fifth_down = perfect_fifth(false);
    let mut end_pitch_up = start_pitch;
    let mut end_pitch_down = start_pitch;
    let mut counter: IntegerType = 0;
    loop
        invariant
            0 <= counter <= MAX_FIFTHS,
            anchor_of(*wanted) == find_anchor(*wanted, end_pitch_up, end_pitch_down, counter as int),
            !fifth_up.implicit_diatonic,
            fifth_up.diatonic.generic.value_spec() == 5,
            fifth_up.chromatic.semitones == 7,
            !fifth_down.implicit_diatonic,
            fifth_down.diatonic.generic.value_spec() == -5,
            fifth_down.chromatic.semitones == -7,
        decreases MAX_FIFTHS - counter,
    {
        if end_pitch_up.same_name(wanted) {
            return Ok((end_pitch_up, ratio_of_fifths(counter, true)));
        } else if end_pitch_down.same_name(wanted) {
            return Ok((end_pitch_down, ratio_of_fifths(counter, false)));
        } else if counter >= MAX_FIFTHS {
            return Err(
                Exception::Interval(
                    String::from_str("Could not find a pythagorean ratio for ").concat(
                        wanted.name().as_str(),
                    ),
                ),
            );
        }
        end_pitch_up = match end_pitch_up.transpose(&fifth_up) {
            Ok(p) => p,
            Err(e) => {
                return Err(e);
            },
        };
        end_pitch_down = match end_pitch_down.transpose(&fifth_down) {
            Ok(p) => p,
            Err(e) => {
                return Err(e);
            },
        };
        counter = counter + 1;
    }
}

/// The ratio at an anchor moved to a pitch of the same name: times 2 for
/// each whole octave that the pitch lies above the anchor, by 2 for each
/// that it lies below.
pub fn move_by_octaves(wanted: &Pitch, anchor: &Pitch, ratio: &Fraction) -> (r: ExceptionResult<
    Fraction,
>)
    requires
        ratio.well_formed(),
        *ratio is Rational,
        ratio->Rational_0 == Sign::Plus,
    ensures
        r is Ok <==> moved_fits(*ratio, octaves_in(wanted.ps_spec() - anchor.ps_spec())),
        r is Ok ==> r->Ok_0 == moved_ratio(
            *ratio,
            octaves_in(wanted.ps_spec() - anchor.ps_spec()),
        ) && r->Ok_0.well_formed(),
        r is Err ==> r->Err_0 is Interval,
{
    let (octaves, _) = split_octaves(wanted.ps() - anchor.ps());
    if octaves < -(MAX_OCTAVES as i128) || octaves > (MAX_OCTAVES as i128) {
        return Err(Exception::Interval(String::from_str("The ratio lies too many octaves away")));
    }
    let octaves = octaves as IntegerType;
    proof {
        lemma_two_three_coprime();
        lemma_powers_fit(
            (if octaves < 0 {
                -octaves
            } else {
                octaves as int
            }) as nat,
        );
        assert(Fraction::new_spec(2, 1) == Fraction::Rational(Sign::Plus, 2, 1));
    }
    let octave_multiplier = Fraction::new(2, 1).powi(octaves);
    match ratio.checked_mul(&octave_multiplier) {
        Some(moved) => Ok(moved),
        None => Err(Exception::Interval(String::from_str("The ratio is too large"))),
    }
}

/// A number for each name: 17 times the step's place, and the accidental's
/// place among the half semitones from four flats up.
pub open spec fn name_key_spec(p: Pitch) -> u64 {
    (p.step.index() * 17 + (p.accidental.alter_spec() + 4 * SEMITONE) / 500_000) as u64
}

/// The number of a pitch's name.
pub fn name_key(p: &Pitch) -> (key: u64)
    ensures
        key == name_key_spec(*p),
{
    let step = (p.step.step_to_dnn_offset() - 1) as u64;
    let place = ((p.accidental.alter() + 4 * SEMITONE) / 500_000) as u64;
    step * 17 + place
}

/// Two pitches with the same number have the same name.
pub proof fn lemma_name_key_injective(p: Pitch, q: Pitch)
    requires
        name_key_spec(p) == name_key_spec(q),
    ensures
        p.same_name_spec(&q),
{
    let a = (p.accidental.alter_spec() + 4 * SEMITONE) / 500_000;
    let b = (q.accidental.alter_spec() + 4 * SEMITONE) / 500_000;
    assert(0 <= a <= 16 && 0 <= b <= 16);
    assert(p.step.index() == q.step.index());
    assert(a == b);
    assert(p.accidental.kind == q.accidental.kind);
}

/// The anchor of a name is the same for every pitch of that name.
pub proof fn lemma_anchor_by_name(p: Pitch, q: Pitch, up: Pitch, down: Pitch, counter: int)
    requires
        p.same_name_spec(&q),
    ensures
        find_anchor(p, up, down, counter) == find_anchor(q, up, down, counter),
    decreases MAX_FIFTHS - counter,
{
    if !up.same_name_spec(&p) && !down.same_name_spec(&p) && counter < MAX_FIFTHS {
        if let Transposition::To(higher) = fifth_from(up, true) {
            if let Transposition::To(lower) = fifth_from(down, false) {
                lemma_anchor_by_name(p, q, higher, lower, counter + 1);
            }
        }
    }
}

/// What the cache keeps for a name: the anchor of the name, and the ratio of
/// the fifths from the reference to the anchor.
#[derive(Debug, Clone, Copy)]
pub struct RatioCacheEntry {
    pub anchor: Pitch,
    pub ratio: Fraction,
}

/// Whether an entry is what the search finds for the name of a pitch.
pub open spec fn entry_is_for(entry: RatioCacheEntry, wanted: Pitch) -> bool {
    &&& anchor_of(wanted) matches AnchorSearch::Found { anchor, fifths }
    &&& entry.anchor == anchor
    &&& entry.ratio == fifth_ratio(fifths)
    &&& entry.ratio.well_formed()
}

/// What a cache holds once the ratio of a pitch was asked of it: what it
/// held, and with it the entry for the name of the pitch, where the search
/// finds an anchor and the cache held none. A search that fails leaves the
/// cache as it was.
pub open spec fn held_after(held: Map<u64, RatioCacheEntry>, wanted: Pitch) -> Map<
    u64,
    RatioCacheEntry,
> {
    match anchor_of(wanted) {
        AnchorSearch::Found { anchor, fifths } => if held.contains_key(name_key_spec(wanted)) {
            held
        } else {
            held.insert(
                name_key_spec(wanted),
                RatioCacheEntry { anchor, ratio: fifth_ratio(fifths) },
            )
        },
        _ => held,
    }
}

/// What a cache holds once the ratio of an interval was asked of it: where
/// the interval reaches a pitch from the reference, what it holds once the
/// ratio of that pitch was asked; else what it held.
pub open spec fn held_after_interval(held: Map<u64, RatioCacheEntry>, interval: Interval) -> Map<
    u64,
    RatioCacheEntry,
> {
    match interval.transposition(reference_pitch_spec(), Some(4int)) {
        Transposition::To(reached) => held_after(held, reached),
        _ => held,
    }
}

/// The anchors and ratios that were found so far, by name. An entry is
/// what the search finds for its name, so a ratio from the cache is the
/// ratio that would be worked out without it.
pub struct RatioCache {
    entries: HashMap<u64, RatioCacheEntry>,
}

impl RatioCache {
    #[verifier::type_invariant]
    pub closed spec fn entries_are_found(&self) -> bool {
        forall|w: Pitch| #[trigger]
            self.entries@.contains_key(name_key_spec(w)) ==> entry_is_for(
                self.entries@[name_key_spec(w)],
                w,
            )
    }

    /// What the cache holds, by the numbers of the names.
    pub closed spec fn view(&self) -> Map<u64, RatioCacheEntry> {
        self.entries@
    }

    /// A cache that holds nothing yet.
    pub fn new() -> (cache: Self)
        ensures
            cache@ == Map::<u64, RatioCacheEntry>::empty(),
    {
        RatioCache { entries: HashMap::new() }
    }

    /// The number of names in the cache.
    pub fn len(&self) -> (n: usize)
        ensures
            n == self@.len(),
    {
        broadcast use vstd::std_specs::hash::group_hash_axioms;

        self.entries.len()
    }

    /// Whether the cache holds the name of a pitch.
    pub fn contains(&self, p: &Pitch) -> (held: bool)
        ensures
            held == self@.contains_key(name_key_spec(*p)),
    {
        broadcast use vstd::std_specs::hash::group_hash_axioms;

        let key = name_key(p);
        self.entries.contains_key(&key)
    }

    /// The ratio of a pitch to the reference. The name's anchor is taken
    /// from the cache, or searched and put there: what the cache held it
    /// holds still.
    pub fn ratio_of_pitch(&mut self, wanted: &Pitch) -> (r: ExceptionResult<Fraction>)
        ensures
            ratio_result_as(r, ratio_of_pitch(*wanted)),
            ratio_result_as(r, super::fifths::ratio_on_the_line(*wanted)),
            r is Ok ==> r->Ok_0.well_formed() && r->Ok_0 is Rational,
            final(self)@ == held_after(old(self)@, *wanted),
            old(self)@.submap_of(final(self)@),
            anchor_of(*wanted) is Found ==> final(self)@.contains_key(name_key_spec(*wanted)),
            !(anchor_of(*wanted) is Found) ==> final(self)@ == old(self)@,
            forall|key: u64| #[trigger]
                final(self)@.contains_key(key) ==> old(self)@.contains_key(key) || key
                    == name_key_spec(*wanted),
    {
        broadcast use vstd::std_specs::hash::group_hash_axioms;

        proof {
            use_type_invariant(&*self);
            super::fifths::lemma_ratio_of_pitch(*wanted);
        }
        let key = name_key(wanted);
        let cached = match self.entries.get(&key) {
            Some(entry) => Some(*entry),
            None => None,
        };
        if let Some(entry) = cached {
            assert(self.entries@.contains_key(name_key_spec(*wanted)));
            proof {
                lemma_fifth_ratio_positive(anchor_of(*wanted)->fifths);
            }
            return move_by_octaves(wanted, &entry.anchor, &entry.ratio);
        }
        let (found_pitch, found_ratio) = match search_anchor(wanted) {
            Ok(found) => found,
            Err(e) => {
                return Err(e);
            },
        };
        let entry = RatioCacheEntry { anchor: found_pitch, ratio: found_ratio };
        proof {
            assert forall|w: Pitch| #[trigger]
                self.entries@.insert(key, entry).contains_key(name_key_spec(w)) implies entry_is_for(
                self.entries@.insert(key, entry)[name_key_spec(w)],
                w,
            ) by {
                if name_key_spec(w) == key {
                    lemma_name_key_injective(w, *wanted);
                    lemma_anchor_by_name(w, *wanted, reference_pitch_spec(), reference_pitch_spec(), 0);
                } else {
                    assert(self.entries@.contains_key(name_key_spec(w)));
                }
            }
            lemma_fifth_ratio_positive(anchor_of(*wanted)->fifths);
        }
        let mut taken = RatioCache::new();
        core::mem::swap(self, &mut taken);
        let mut entries = taken.entries;
        entries.insert(key, entry);
        *self = RatioCache { entries };
        assert(self@ =~= held_after(old(self)@, *wanted));
        move_by_octaves(wanted, &found_pitch, &found_ratio)
    }

    /// The ratio of an interval in pure fifths and octaves: that of the
    /// pitch which the interval reaches from the reference.
    pub fn interval_to_pythagorean_ratio(&mut self, interval: &Interval) -> (r: ExceptionResult<
        Fraction,
    >)
        ensures
            ratio_result_as(r, ratio_of_interval(*interval)),
            r is Ok ==> r->Ok_0.well_formed() && r->Ok_0 is Rational,
            final(self)@ == held_after_interval(old(self)@, *interval),
            old(self)@.submap_of(final(self)@),
            !(interval.transposition(reference_pitch_spec(), Some(4int)) is To) ==> final(self)@
                == old(self)@,
    {
        let start_pitch = reference_pitch();
        let end_pitch_wanted = match start_pitch.transpose(interval) {
            Ok(p) => p,
            Err(e) => {
                return Err(e);
            },
        };
        self.ratio_of_pitch(&end_pitch_wanted)
    }
}

/// The ratio of fifths is a positive ratio.
pub proof fn lemma_fifth_ratio_positive(fifths: int)
    ensures
        fifth_ratio(fifths) is Rational,
        fifth_ratio(fifths)->Rational_0 == Sign::Plus,
{
}

/// The ratio of an interval in pure fifths and octaves, worked out afresh.
pub fn interval_to_pythagorean_ratio(interval: &Interval) -> (r: ExceptionResult<Fraction>)
    ensures
        ratio_result_as(r, ratio_of_interval(*interval)),
        r is Ok ==> r->Ok_0.well_formed() && r->Ok_0 is Rational,
{
    let mut cache = RatioCache::new();
    cache.interval_to_pythagorean_ratio(interval)
}

} // verus!
