pub mod chromaticinterval;
pub mod diatonicinterval;
pub mod direction;
pub mod fifths;
pub mod genericinterval;
pub mod intervalstring;
pub mod parse;
pub mod pythagorean;
pub mod specifier;

use crate::common::math::{floor_div, floor_mod};
use crate::defaults::{IntegerType, SEMITONE};
use crate::exception::{Exception, ExceptionResult};
use crate::pitch::accidental::{Accidental, AccidentalEnum};
use crate::pitch::{octave_span, Pitch};
use crate::stepname::StepName;
use chromaticinterval::ChromaticInterval;
use diatonicinterval::{diatonic_semitones, DiatonicInterval};
use direction::Direction;
use genericinterval::{
    generic_direction, generic_is_perfectable, generic_simple_undirected, generic_staff_distance,
    generic_undirected, generic_undirected_octaves, major_scale_semitones, GenericInterval,
};
use specifier::Specifier;
use vstd::prelude::*;
use vstd::string::*;

verus! {

/// The size of the generic interval between two notes a number of staff
/// steps apart: the steps and one more, with the sign of the steps.
pub open spec fn staff_distance_to_generic(distance: int) -> int {
    if distance >= 0 {
        distance + 1
    } else {
        distance - 1
    }
}

/// The whole semitones nearest to a distance in pitch space; a distance half
/// way between two goes to the one further from zero.
pub open spec fn round_to_semitones(distance: int) -> int {
    if distance >= 0 {
        (distance + 500_000) / (SEMITONE as int)
    } else {
        -((-distance + 500_000) / (SEMITONE as int))
    }
}

/// The quality of the interval of a size on the staff that spans a number of
/// semitones, if there is one: up to four times augmented or diminished.
pub open spec fn specifier_between(generic: int, semitones: int) -> Option<Specifier> {
    let normal = major_scale_semitones(generic_simple_undirected(generic)) + 12
        * generic_undirected_octaves(generic);
    let staff_direction = generic_direction(generic);
    let sound_direction = Direction::of_sign(semitones);
    let size = if semitones < 0 {
        -semitones
    } else {
        semitones
    };
    let these = if staff_direction != sound_direction && staff_direction != Direction::Oblique
        && sound_direction != Direction::Oblique {
        -size
    } else if generic_undirected(generic) == 1 {
        semitones
    } else {
        size
    };
    if generic_is_perfectable(generic) {
        Specifier::from_semitones_above_perfect_spec(these - normal)
    } else {
        Specifier::from_semitones_above_major_spec(these - normal)
    }
}

/// The size on the staff, with its direction, of the interval from one
/// pitch to another.
pub open spec fn generic_between(start: Pitch, end: Pitch) -> int {
    staff_distance_to_generic(end.diatonic_note_num_spec() - start.diatonic_note_num_spec())
}

/// The semitones, with their direction, of the interval from one pitch to
/// another, to the nearest whole one.
pub open spec fn semitones_between(start: Pitch, end: Pitch) -> int {
    round_to_semitones(end.ps_spec() - start.ps_spec())
}

/// Whether there is an interval from one pitch to another: its size and its
/// semitones must fit, and the size must have a quality for the semitones.
pub open spec fn interval_exists_between(start: Pitch, end: Pitch) -> bool {
    let generic = generic_between(start, end);
    let semitones = semitones_between(start, end);
    &&& IntegerType::MIN < generic <= IntegerType::MAX
    &&& IntegerType::MIN <= semitones <= IntegerType::MAX
    &&& specifier_between(generic, semitones) is Some
}

/// What transposing a pitch comes to.
pub enum Transposition {
    To(Pitch),
    NoSuchAccidental,
    OutOfRange,
}

/// Whole octaves in an alteration, counted towards zero.
pub open spec fn octaves_in(alter: int) -> int {
    if alter >= 0 {
        alter / octave_span()
    } else {
        -((-alter) / octave_span())
    }
}

/// The pitch-space value of the natural note at a place of the endless
/// staff.
pub open spec fn natural_ps_at(diatonic_note_num: int) -> int {
    let octave = (diatonic_note_num - 1) / 7;
    let step = StepName::at((diatonic_note_num - 1) % 7);
    ((octave + 1) * 12 + step.ref_spec()) * SEMITONE
}

/// `p` moved by a number of staff steps and by a number of semitones. The
/// step follows the staff; the accidental makes up the semitones, after
/// whole octaves have gone to the octave. Where `max_accidental` is given
/// and the accidental would be larger, the pitch takes its simplest spelling
/// instead. The result has an octave only where `p` has one.
pub open spec fn transpose_by(
    p: Pitch,
    staff_distance: int,
    semitones: int,
    max_accidental: Option<int>,
) -> Transposition {
    let place = p.diatonic_note_num_spec() + staff_distance;
    let target_ps = p.ps_spec() + semitones * SEMITONE;
    let alter = target_ps - natural_ps_at(place);
    let octaves = octaves_in(alter);
    let alter = alter - octaves * octave_span();
    let octave = (place - 1) / 7 + octaves;
    let size = if alter < 0 {
        -alter
    } else {
        alter
    };
    if max_accidental is Some && size > max_accidental->Some_0 * SEMITONE {
        if Pitch::ps_representable(target_ps) {
            if p.octave is None {
                Transposition::To(Pitch { octave: None, ..Pitch::from_ps_spec(target_ps) })
            } else {
                Transposition::To(Pitch::from_ps_spec(target_ps))
            }
        } else {
            Transposition::OutOfRange
        }
    } else {
        match AccidentalEnum::from_alter_spec(alter) {
            None => Transposition::NoSuchAccidental,
            Some(kind) => {
                if IntegerType::MIN <= octave <= IntegerType::MAX {
                    Transposition::To(
                        Pitch {
                            step: StepName::at((place - 1) % 7),
                            octave: if p.octave is None {
                                None
                            } else {
                                Some(octave as IntegerType)
                            },
                            accidental: Accidental { kind },
                            microtone: None,
                            spelling_is_inferred: true,
                        },
                    )
                } else {
                    Transposition::OutOfRange
                }
            },
        }
    }
}

/// A transposed pitch lies as many semitones from the pitch as was asked
/// for: exactly where the pitch has an octave, and but for whole octaves
/// where it has none. It has an octave where the pitch has one.
pub proof fn lemma_transposed_distance(
    p: Pitch,
    staff_distance: int,
    semitones: int,
    max_accidental: Option<int>,
)
    ensures
        transpose_by(p, staff_distance, semitones, max_accidental) matches Transposition::To(q) ==> {
            &&& q.octave is Some <==> p.octave is Some
            &&& p.octave is Some ==> q.ps_spec() == p.ps_spec() + semitones * SEMITONE
            &&& (q.ps_spec() - p.ps_spec() - semitones * SEMITONE) % octave_span() == 0
        },
{
    if let Transposition::To(q) = transpose_by(p, staff_distance, semitones, max_accidental) {
        let place = p.diatonic_note_num_spec() + staff_distance;
        let target_ps = p.ps_spec() + semitones * SEMITONE;
        let raw = target_ps - natural_ps_at(place);
        let octaves = octaves_in(raw);
        let alter = raw - octaves * octave_span();
        let octave = (place - 1) / 7 + octaves;
        let size = if alter < 0 {
            -alter
        } else {
            alter
        };
        vstd::arithmetic::div_mod::lemma_mod_bound(place - 1, 7);
        if max_accidental is Some && size > max_accidental->Some_0 * SEMITONE {
            crate::pitch::lemma_from_ps_keeps(target_ps);
            let moved = Pitch::from_ps_spec(target_ps);
            if p.octave is None {
                lemma_octaves_apart(q, moved);
            }
            assert((q.ps_spec() - target_ps) % octave_span() == 0) by {
                if p.octave is Some {
                    assert(q.ps_spec() - target_ps == 0);
                }
            }
        } else {
            let kind = AccidentalEnum::from_alter_spec(alter)->Some_0;
            assert(kind.alter_spec() == alter);
            let step = StepName::at((place - 1) % 7);
            let with_octave = Pitch {
                step,
                octave: Some(octave as IntegerType),
                accidental: Accidental { kind },
                microtone: None,
                spelling_is_inferred: true,
            };
            assert(with_octave.ps_spec() == ((octave + 1) * 12 + step.ref_spec()) * SEMITONE + alter);
            assert(((octave + 1) * 12 + step.ref_spec()) * SEMITONE + alter == target_ps)
                by (nonlinear_arith)
                requires
                    alter == raw - octaves * (12 * SEMITONE),
                    raw == target_ps - (((place - 1) / 7 + 1) * 12 + step.ref_spec()) * SEMITONE,
                    octave == (place - 1) / 7 + octaves,
            ;
            if p.octave is None {
                lemma_octaves_apart(q, with_octave);
            }
            assert((q.ps_spec() - target_ps) % octave_span() == 0) by {
                if p.octave is Some {
                    assert(q.ps_spec() - target_ps == 0);
                }
            }
        }
    }
}

/// Two pitches that differ in their octaves alone are whole octaves apart.
pub proof fn lemma_octaves_apart(p: Pitch, q: Pitch)
    requires
        p.step == q.step,
        p.accidental == q.accidental,
        p.microtone == q.microtone,
    ensures
        (p.ps_spec() - q.ps_spec()) % octave_span() == 0,
{
    let apart = p.implicit_octave_spec() - q.implicit_octave_spec();
    assert(p.ps_spec() - q.ps_spec() == apart * octave_span()) by (nonlinear_arith)
        requires
            p.ps_spec() - q.ps_spec() == ((p.implicit_octave_spec() + 1) * 12 + p.step.ref_spec())
                * SEMITONE - ((q.implicit_octave_spec() + 1) * 12 + p.step.ref_spec()) * SEMITONE,
            apart == p.implicit_octave_spec() - q.implicit_octave_spec(),
            octave_span() == 12 * SEMITONE,
    ;
    vstd::arithmetic::div_mod::lemma_mod_multiples_basic(apart, octave_span());
}

/// An interval between two pitches: its size on the staff with its quality,
/// and its semitones. `implicit_diatonic` says that only the semitones were
/// given and the rest was read from them.
#[derive(Debug, Clone, Copy)]
pub struct Interval {
    pub implicit_diatonic: bool,
    pub diatonic: DiatonicInterval,
    pub chromatic: ChromaticInterval,
    pub pitch_start: Option<Pitch>,
    pub pitch_end: Option<Pitch>,
}

/// What an interval can be made from.
pub enum IntervalArgument {
    Str(String),
    Int(crate::defaults::UnsignedIntegerType),
    Pitch(Pitch),
}

pub trait IntoInterval {
    fn into_interval_arg();
}

impl Interval {
    /// The interval from one pitch to another, if there is one.
    pub fn between(start: &Pitch, end: &Pitch) -> (r: ExceptionResult<Self>)
        ensures
            r is Ok <==> interval_exists_between(*start, *end),
            r is Ok ==> {
                let i = r->Ok_0;
                &&& i.diatonic.generic.value_spec() == generic_between(*start, *end)
                &&& i.chromatic.semitones == semitones_between(*start, *end)
                &&& Some(i.diatonic.specifier) == specifier_between(
                    generic_between(*start, *end),
                    semitones_between(*start, *end),
                )
                &&& !i.implicit_diatonic
                &&& i.pitch_start == Some(*start)
                &&& i.pitch_end == Some(*end)
            },
            r is Err ==> r->Err_0 is Interval,
    {
        let staff = end.diatonic_note_num() - start.diatonic_note_num();
        let generic: i128 = if staff >= 0 {
            staff + 1
        } else {
            staff - 1
        };
        if generic <= (IntegerType::MIN as i128) || generic > (IntegerType::MAX as i128) {
            return Err(Exception::Interval(String::from_str("Interval is out of range")));
        }
        let distance = end.ps() - start.ps();
        let semitones: i128 = if distance >= 0 {
            (distance + 500_000) / (SEMITONE as i128)
        } else {
            -((-distance + 500_000) / (SEMITONE as i128))
        };
        if semitones < (IntegerType::MIN as i128) || semitones > (IntegerType::MAX as i128) {
            return Err(Exception::Interval(String::from_str("Interval is out of range")));
        }
        let generic = match GenericInterval::from_int(generic as IntegerType) {
            Ok(g) => g,
            Err(e) => {
                return Err(e);
            },
        };
        let chromatic = ChromaticInterval::new(semitones as IntegerType);
        let specifier = match get_specifier_from_generic_chromatic(&generic, &chromatic) {
            Ok(s) => s,
            Err(e) => {
                return Err(e);
            },
        };
        Ok(
            Interval {
                implicit_diatonic: false,
                diatonic: DiatonicInterval::new(specifier, &generic),
                chromatic,
                pitch_start: Some(*start),
                pitch_end: Some(*end),
            },
        )
    }

    /// The interval of a size with a quality and of a number of semitones,
    /// taken at the caller's word.
    pub fn from_diatonic_and_chromatic(diatonic: DiatonicInterval, chromatic: ChromaticInterval) -> (r:
        ExceptionResult<Interval>)
        ensures
            r is Ok,
            r->Ok_0.diatonic.generic.value_spec() == diatonic.generic.value_spec(),
            r->Ok_0.diatonic.specifier == diatonic.specifier,
            r->Ok_0.chromatic == chromatic,
            !r->Ok_0.implicit_diatonic,
            r->Ok_0.pitch_start is None,
            r->Ok_0.pitch_end is None,
    {
        Ok(
            Interval {
                implicit_diatonic: false,
                diatonic,
                chromatic,
                pitch_start: None,
                pitch_end: None,
            },
        )
    }

    /// The interval of a size on the staff with a quality; its semitones
    /// follow from them.
    pub fn from_diatonic(diatonic: DiatonicInterval) -> (r: ExceptionResult<Interval>)
        ensures
            r is Ok <==> {
                &&& diatonic_semitones(diatonic.generic.value_spec(), diatonic.specifier) matches Some(
                    s,
                )
                &&& IntegerType::MIN <= s <= IntegerType::MAX
            },
            r is Ok ==> {
                &&& r->Ok_0.diatonic.generic.value_spec() == diatonic.generic.value_spec()
                &&& r->Ok_0.diatonic.specifier == diatonic.specifier
                &&& Some(r->Ok_0.chromatic.semitones as int) == diatonic_semitones(
                    diatonic.generic.value_spec(),
                    diatonic.specifier,
                )
                &&& !r->Ok_0.implicit_diatonic
                &&& r->Ok_0.pitch_start is None
                &&& r->Ok_0.pitch_end is None
            },
            r is Err ==> r->Err_0 is Interval,
    {
        match diatonic.get_chromatic() {
            Ok(chromatic) => Interval::from_diatonic_and_chromatic(diatonic, chromatic),
            Err(e) => Err(e),
        }
    }

    /// The interval of a number of semitones upwards; its size on the staff
    /// and its quality are read from them.
    pub fn from_semitones(semitones: IntegerType) -> (i: Interval)
        ensures
            i.chromatic.semitones == semitones,
            i.implicit_diatonic,
            i.diatonic.generic.value_spec() == chromaticinterval::chromatic_to_generic(
                semitones as int,
            ),
            i.pitch_start is None,
            i.pitch_end is None,
    {
        let chromatic = ChromaticInterval::new(semitones);
        let diatonic = chromatic.get_diatonic();
        Interval {
            implicit_diatonic: true,
            diatonic,
            chromatic,
            pitch_start: None,
            pitch_end: None,
        }
    }

    pub fn generic(&self) -> (g: &GenericInterval)
        ensures
            g.value_spec() == self.diatonic.generic.value_spec(),
    {
        &self.diatonic.generic
    }

    /// The interval the other way: between the same two pitches where it has
    /// them, else of the opposite size and semitones.
    pub fn reverse(&self) -> (r: ExceptionResult<Interval>)
        ensures
            self.pitch_start is Some && self.pitch_end is Some ==> (r is Ok
                <==> interval_exists_between(self.pitch_end->Some_0, self.pitch_start->Some_0)),
            self.pitch_start is Some && self.pitch_end is Some && r is Ok ==> {
                &&& r->Ok_0.diatonic.generic.value_spec() == generic_between(
                    self.pitch_end->Some_0,
                    self.pitch_start->Some_0,
                )
                &&& r->Ok_0.chromatic.semitones == semitones_between(
                    self.pitch_end->Some_0,
                    self.pitch_start->Some_0,
                )
                &&& Some(r->Ok_0.diatonic.specifier) == specifier_between(
                    generic_between(self.pitch_end->Some_0, self.pitch_start->Some_0),
                    semitones_between(self.pitch_end->Some_0, self.pitch_start->Some_0),
                )
                &&& !r->Ok_0.implicit_diatonic
                &&& r->Ok_0.pitch_start == self.pitch_end
                &&& r->Ok_0.pitch_end == self.pitch_start
            },
            !(self.pitch_start is Some && self.pitch_end is Some) ==> (r is Ok
                <==> self.chromatic.semitones > IntegerType::MIN),
            !(self.pitch_start is Some && self.pitch_end is Some) && r is Ok ==> {
                &&& r->Ok_0.chromatic.semitones == -self.chromatic.semitones
                &&& r->Ok_0.diatonic.specifier == self.diatonic.specifier
                &&& r->Ok_0.diatonic.generic.value_spec() == if generic_undirected(
                    self.diatonic.generic.value_spec(),
                ) == 1 {
                    1
                } else {
                    -self.diatonic.generic.value_spec()
                }
                &&& r->Ok_0.implicit_diatonic == self.implicit_diatonic
                &&& r->Ok_0.pitch_start is None
                &&& r->Ok_0.pitch_end is None
            },
            r is Err ==> r->Err_0 is Interval,
    {
        match (self.pitch_start, self.pitch_end) {
            (Some(start), Some(end)) => Interval::between(&end, &start),
            _ => {
                let chromatic = match self.chromatic.reverse() {
                    Ok(c) => c,
                    Err(e) => {
                        return Err(e);
                    },
                };
                Ok(
                    Interval {
                        implicit_diatonic: self.implicit_diatonic,
                        diatonic: self.diatonic.reverse(),
                        chromatic,
                        pitch_start: None,
                        pitch_end: None,
                    },
                )
            },
        }
    }

    /// What moving `p` by this interval comes to.
    pub open spec fn transposition(&self, p: Pitch, max_accidental: Option<int>) -> Transposition {
        interval_transposition(
            self.implicit_diatonic,
            self.diatonic.generic.value_spec(),
            self.chromatic.semitones as int,
            p,
            max_accidental,
        )
    }

    /// What moving `p` by this interval the other way comes to, allowing an
    /// accidental of four semitones; `None` where the interval has no
    /// reverse.
    pub open spec fn reversed_transposition(&self, p: Pitch) -> Option<Transposition> {
        if self.pitch_start is Some && self.pitch_end is Some {
            let start = self.pitch_end->Some_0;
            let end = self.pitch_start->Some_0;
            if interval_exists_between(start, end) {
                Some(
                    interval_transposition(
                        false,
                        generic_between(start, end),
                        semitones_between(start, end),
                        p,
                        Some(4int),
                    ),
                )
            } else {
                None
            }
        } else if self.chromatic.semitones > IntegerType::MIN {
            Some(
                interval_transposition(
                    self.implicit_diatonic,
                    if generic_undirected(self.diatonic.generic.value_spec()) == 1 {
                        1
                    } else {
                        -self.diatonic.generic.value_spec()
                    },
                    -self.chromatic.semitones,
                    p,
                    Some(4int),
                ),
            )
        } else {
            None
        }
    }

    /// `p` moved by this interval, or by its reverse. `max_accidental` is
    /// the largest accidental, in semitones, that the new spelling may have;
    /// beyond it the pitch takes its simplest spelling. Without it, an
    /// alteration that no accidental has is an error; a pitch beyond the
    /// octaves that a pitch can hold is one always. A reversed interval
    /// allows four semitones.
    pub fn transpose_pitch(&self, p: &Pitch, reverse: bool, max_accidental: Option<IntegerType>) -> (r:
        ExceptionResult<Pitch>)
        ensures
            !reverse ==> transposed_as(r, self.transposition(*p, option_int(max_accidental))),
            reverse ==> match self.reversed_transposition(*p) {
                None => r is Err && r->Err_0 is Interval,
                Some(t) => transposed_as(r, t),
            },
    {
        if reverse {
            match self.reverse() {
                Ok(back) => back.transpose_forward(p, Some(4)),
                Err(e) => Err(e),
            }
        } else {
            self.transpose_forward(p, max_accidental)
        }
    }

    /// `p` moved by this interval.
    pub fn transpose_forward(&self, p: &Pitch, max_accidental: Option<IntegerType>) -> (r:
        ExceptionResult<Pitch>)
        ensures
            transposed_as(r, self.transposition(*p, option_int(max_accidental))),
    {
        reveal(interval_transposition);
        if self.implicit_diatonic {
            self.chromatic.transpose_pitch(p)
        } else {
            diatonic_transpose_pitch(
                p,
                self.diatonic.generic.staff_distance(),
                self.chromatic.semitones,
                max_accidental,
            )
        }
    }
}

/// What moving `p` by an interval comes to. An interval that was given by
/// its semitones alone moves the pitch-space value and spells the pitch in
/// the simplest way; any other moves the step on the staff and sets the
/// accidental.
#[verifier::opaque]
pub open spec fn interval_transposition(
    implicit_diatonic: bool,
    generic: int,
    semitones: int,
    p: Pitch,
    max_accidental: Option<int>,
) -> Transposition {
    if implicit_diatonic {
        let target_ps = p.ps_spec() + semitones * SEMITONE;
        if Pitch::ps_representable(target_ps) {
            if p.octave is None {
                Transposition::To(Pitch { octave: None, ..Pitch::from_ps_spec(target_ps) })
            } else {
                Transposition::To(Pitch::from_ps_spec(target_ps))
            }
        } else {
            Transposition::OutOfRange
        }
    } else {
        transpose_by(p, generic_staff_distance(generic), semitones, max_accidental)
    }
}

/// The largest accidental as a number, where one is given.
pub open spec fn option_int(value: Option<IntegerType>) -> Option<int> {
    match value {
        Some(v) => Some(v as int),
        None => None,
    }
}

/// A result of transposing says what the transposition comes to: the pitch,
/// or an error of the accidental, or an error of the pitch.
pub open spec fn transposed_as(r: ExceptionResult<Pitch>, t: Transposition) -> bool {
    match t {
        Transposition::To(q) => r is Ok && r->Ok_0 == q,
        Transposition::NoSuchAccidental => r is Err && r->Err_0 is Accidental,
        Transposition::OutOfRange => r is Err && r->Err_0 is Pitch,
    }
}

/// The quality of the interval of a size on the staff that spans a number of
/// semitones; there is none beyond four times augmented or diminished.
pub fn get_specifier_from_generic_chromatic(generic: &GenericInterval, chromatic: &ChromaticInterval) -> (r:
    ExceptionResult<Specifier>)
    ensures
        r is Ok <==> specifier_between(generic.value_spec(), chromatic.semitones as int) is Some,
        r is Ok ==> Some(r->Ok_0) == specifier_between(
            generic.value_spec(),
            chromatic.semitones as int,
        ),
        r is Err ==> r->Err_0 is Interval,
{
    let simple = generic.simple_undirected() as u64;
    let start = match diatonicinterval::semitones_generic(simple) {
        Ok(start) => start as i128,
        Err(e) => {
            return Err(e);
        },
    };
    let normal: i128 = start + 12 * (generic.undirected_octaves() as i128);
    let staff_direction = generic.direction();
    let sound_direction = chromatic.direction();
    let size: i128 = if chromatic.semitones < 0 {
        -(chromatic.semitones as i128)
    } else {
        chromatic.semitones as i128
    };
    let these: i128 = if staff_direction != sound_direction && staff_direction
        != Direction::Oblique && sound_direction != Direction::Oblique {
        -size
    } else if generic.undirected() == 1 {
        chromatic.semitones as i128
    } else {
        size
    };
    let specifier = if generic.is_perfectable() {
        Specifier::from_semitones_above_perfect(these - normal)
    } else {
        Specifier::from_semitones_above_major(these - normal)
    };
    match specifier {
        Some(s) => Ok(s),
        None => Err(
            Exception::Interval(
                String::from_str(
                    "cannot get a specifier for a note with this many semitones off of the interval's size",
                ),
            ),
        ),
    }
}

/// An alteration as whole octaves, counted towards zero, and what is left.
pub fn split_octaves(alter: i128) -> (parts: (i128, i128))
    requires
        -1_000_000_000_000_000_000_000_000_000 <= alter <= 1_000_000_000_000_000_000_000_000_000,
    ensures
        parts.0 == octaves_in(alter as int),
        parts.1 == alter - octaves_in(alter as int) * octave_span(),
        -octave_span() < parts.1 < octave_span(),
        alter >= 0 ==> 0 <= parts.0 <= alter,
        alter < 0 ==> alter <= parts.0 <= 0,
{
    let span: i128 = 12 * (SEMITONE as i128);
    if alter >= 0 {
        proof {
            vstd::arithmetic::div_mod::lemma_fundamental_div_mod(alter as int, span as int);
            vstd::arithmetic::div_mod::lemma_div_pos_is_pos(alter as int, span as int);
            vstd::arithmetic::div_mod::lemma_div_is_ordered_by_denominator(alter as int, 1, span as int);
            assert((alter as int / span as int) * span == span * (alter as int / span as int))
                by (nonlinear_arith);
        }
        (alter / span, alter % span)
    } else {
        let size = -alter;
        proof {
            vstd::arithmetic::div_mod::lemma_fundamental_div_mod(size as int, span as int);
            vstd::arithmetic::div_mod::lemma_div_pos_is_pos(size as int, span as int);
            vstd::arithmetic::div_mod::lemma_div_is_ordered_by_denominator(size as int, 1, span as int);
            assert((-(size as int / span as int)) * span == -(span * (size as int / span as int)))
                by (nonlinear_arith);
        }
        (-(size / span), -(size % span))
    }
}

/// `p` moved by a number of staff steps and by a number of semitones: the
/// step follows the staff, and the accidental makes up the semitones.
pub fn diatonic_transpose_pitch(
    p: &Pitch,
    staff_distance: IntegerType,
    semitones: IntegerType,
    max_accidental: Option<IntegerType>,
) -> (r: ExceptionResult<Pitch>)
    ensures
        transposed_as(
            r,
            transpose_by(*p, staff_distance as int, semitones as int, option_int(max_accidental)),
        ),
{
    let span: i128 = 12 * (SEMITONE as i128);
    let place = p.diatonic_note_num() + (staff_distance as i128);
    let staff_octave = floor_div(place - 1, 7);
    let step_index = floor_mod(place - 1, 7);
    let step = StepName::from_index(step_index as IntegerType);
    let natural_semitones: i128 = (staff_octave + 1) * 12 + (step.step_ref() as i128);
    assert(-300_000_000_000_000_000_000_000_000 <= natural_semitones * SEMITONE
        <= 300_000_000_000_000_000_000_000_000) by (nonlinear_arith)
        requires
            -300_000_000_000_000_000_000 <= natural_semitones <= 300_000_000_000_000_000_000,
            SEMITONE == 1_000_000,
    ;
    let natural_ps: i128 = natural_semitones * (SEMITONE as i128);
    assert(-10_000_000_000_000_000_000_000_000 <= semitones * SEMITONE
        <= 10_000_000_000_000_000_000_000_000) by (nonlinear_arith)
        requires
            -10_000_000_000_000_000_000 <= semitones <= 10_000_000_000_000_000_000,
            SEMITONE == 1_000_000,
    ;
    let target_ps: i128 = p.ps() + (semitones as i128) * (SEMITONE as i128);
    let alter: i128 = target_ps - natural_ps;
    let (octaves, alter) = split_octaves(alter);
    let octave: i128 = staff_octave + octaves;
    let size: i128 = if alter < 0 {
        -alter
    } else {
        alter
    };
    let too_large = match max_accidental {
        Some(m) => {
            assert(-10_000_000_000_000_000_000_000_000 <= m * SEMITONE
                <= 10_000_000_000_000_000_000_000_000) by (nonlinear_arith)
                requires
                    -10_000_000_000_000_000_000 <= m <= 10_000_000_000_000_000_000,
                    SEMITONE == 1_000_000,
            ;
            size > (m as i128) * (SEMITONE as i128)
        },
        None => false,
    };
    if too_large {
        let mut moved = match Pitch::from_ps(target_ps) {
            Ok(moved) => moved,
            Err(e) => {
                return Err(e);
            },
        };
        if p.octave.is_none() {
            moved.octave = None;
        }
        return Ok(moved);
    }
    let kind = match AccidentalEnum::from_alter(alter as IntegerType) {
        Some(kind) => kind,
        None => {
            return Err(
                Exception::Accidental(
                    String::from_str("no accidental alters a pitch by so much"),
                ),
            );
        },
    };
    if octave < (IntegerType::MIN as i128) || octave > (IntegerType::MAX as i128) {
        return Err(Exception::Pitch(String::from_str("the octave of the transposed pitch is out of range")));
    }
    Ok(
        Pitch {
            step,
            octave: if p.octave.is_none() {
                None
            } else {
                Some(octave as IntegerType)
            },
            accidental: Accidental { kind },
            microtone: None,
            spelling_is_inferred: true,
        },
    )
}

} // verus!
