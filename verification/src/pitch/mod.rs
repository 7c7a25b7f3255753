pub mod accidental;
pub mod dissonance;
pub mod enharmonics;
pub mod laws;
pub mod microtone;
pub mod naming;
pub mod pitchclass;
pub mod pitchclassstring;
pub mod respell;
pub mod search;

use crate::common::math::{floor_div, floor_mod};
use crate::common::stringtools::{signed_decimal_of, signed_decimal_text, string_from_chars};
use crate::defaults::{IntegerType, Octave, PITCH_OCTAVE, SEMITONE};
use crate::exception::{Exception, ExceptionResult};
use crate::stepname::StepName;
use accidental::{Accidental, AccidentalEnum};
use microtone::Microtone;
use vstd::prelude::*;
use vstd::std_specs::cmp::PartialEqSpecImpl;
use vstd::string::*;

verus! {

/// A pitch as it is written: a step, an accidental, an octave where one is
/// given, and a microtone where there is one. `spelling_is_inferred` records
/// that the spelling was chosen by the library and not by the caller; two
/// pitches that differ in nothing else are equal.
#[derive(Debug, Clone, Copy)]
pub struct Pitch {
    pub step: StepName,
    pub octave: Octave,
    pub accidental: Accidental,
    pub microtone: Option<Microtone>,
    pub spelling_is_inferred: bool,
}

impl PartialEq for Pitch {
    fn eq(&self, other: &Self) -> (same: bool) {
        self.step == other.step && self.octave == other.octave && self.accidental
            == other.accidental && self.microtone == other.microtone
    }
}

impl PartialEqSpecImpl for Pitch {
    open spec fn obeys_eq_spec() -> bool {
        true
    }

    open spec fn eq_spec(&self, other: &Self) -> bool {
        self.same_pitch_spec(other)
    }
}

/// Millionths of a semitone in an octave.
pub open spec fn octave_span() -> int {
    12 * SEMITONE
}

/// The octave number of a pitch-space value.
pub open spec fn ps_octave(ps: int) -> int {
    ps / octave_span() - 1
}

/// The pitch class of a pitch-space value, from 0 at C to 11 at B.
pub open spec fn ps_pitch_class(ps: int) -> int {
    (ps % octave_span()) / (SEMITONE as int)
}

/// What a pitch-space value has above its pitch class, from 0 up to a semitone.
pub open spec fn ps_above_class(ps: int) -> int {
    ps % (SEMITONE as int)
}

/// The part of an excess over a pitch class that an accidental takes: half a
/// semitone for more than a quarter and less than three, a whole from there.
pub open spec fn quarter_tone_alter(above: int) -> int {
    if 250_000 < above < 750_000 {
        500_000
    } else if above >= 750_000 {
        1_000_000
    } else {
        0
    }
}

/// How a pitch class with a quarter-tone alteration is written in the
/// simplest way.
pub struct Spelling {
    pub step: StepName,
    pub alter: int,
    pub octave_shift: int,
}

/// The simplest spelling of a pitch class raised by `alter`, which is 0, half
/// a semitone or a whole one: a natural where there is one, a sharp on C, F
/// and G, a flat on E and B. `octave_shift` is 1 where B is raised to C.
pub open spec fn simplest_spelling(pc: int, alter: int) -> Spelling {
    if pc == 4 && alter == 1_000_000 {
        Spelling { step: StepName::F, alter: 0, octave_shift: 0 }
    } else if pc == 11 && alter == 1_000_000 {
        Spelling { step: StepName::C, alter: 0, octave_shift: 1 }
    } else if pc == 0 {
        Spelling { step: StepName::C, alter: alter, octave_shift: 0 }
    } else if pc == 2 {
        Spelling { step: StepName::D, alter: alter, octave_shift: 0 }
    } else if pc == 4 {
        Spelling { step: StepName::E, alter: alter, octave_shift: 0 }
    } else if pc == 5 {
        Spelling { step: StepName::F, alter: alter, octave_shift: 0 }
    } else if pc == 7 {
        Spelling { step: StepName::G, alter: alter, octave_shift: 0 }
    } else if pc == 9 {
        Spelling { step: StepName::A, alter: alter, octave_shift: 0 }
    } else if pc == 11 {
        Spelling { step: StepName::B, alter: alter, octave_shift: 0 }
    } else if pc == 1 {
        if alter >= 1_000_000 {
            Spelling { step: StepName::D, alter: alter - 1_000_000, octave_shift: 0 }
        } else {
            Spelling { step: StepName::C, alter: 1_000_000 + alter, octave_shift: 0 }
        }
    } else if pc == 6 {
        if alter >= 1_000_000 {
            Spelling { step: StepName::G, alter: alter - 1_000_000, octave_shift: 0 }
        } else {
            Spelling { step: StepName::F, alter: 1_000_000 + alter, octave_shift: 0 }
        }
    } else if pc == 8 {
        if alter >= 1_000_000 {
            Spelling { step: StepName::A, alter: alter - 1_000_000, octave_shift: 0 }
        } else {
            Spelling { step: StepName::G, alter: 1_000_000 + alter, octave_shift: 0 }
        }
    } else if pc == 3 {
        Spelling { step: StepName::E, alter: alter - 1_000_000, octave_shift: 0 }
    } else {
        Spelling { step: StepName::B, alter: alter - 1_000_000, octave_shift: 0 }
    }
}

impl Pitch {
    /// The alteration of the pitch in millionths of a semitone: that of its
    /// accidental and that of its microtone, where it has one.
    pub open spec fn alter_spec(&self) -> int {
        self.accidental.alter_spec() + match self.microtone {
            Some(m) => m.alter_spec(),
            None => 0,
        }
    }

    /// The octave that the pitch sounds in: its own, or the fourth.
    pub open spec fn implicit_octave_spec(&self) -> int {
        match self.octave {
            Some(o) => o as int,
            None => PITCH_OCTAVE as int,
        }
    }

    /// The pitch-space value in millionths of a semitone: 60 000 000 at C4.
    pub open spec fn ps_spec(&self) -> int {
        ((self.implicit_octave_spec() + 1) * 12 + self.step.ref_spec()) * SEMITONE
            + self.alter_spec()
    }

    /// The place of the pitch's step on an endless staff: 29 at C4.
    pub open spec fn diatonic_note_num_spec(&self) -> int {
        self.step.index() + 1 + 7 * self.implicit_octave_spec()
    }

    /// Two pitches are equal: they differ at most in whether their spelling
    /// is inferred.
    pub open spec fn same_pitch_spec(&self, other: &Pitch) -> bool {
        self.step == other.step && self.octave == other.octave && self.accidental
            == other.accidental && self.microtone == other.microtone
    }

    /// Two pitches have one name: the same step and the same accidental.
    pub open spec fn same_name_spec(&self, other: &Pitch) -> bool {
        self.step == other.step && self.accidental == other.accidental
    }

    /// The name of the pitch: the step's letter and the accidental's sign.
    pub open spec fn name_spec(&self) -> Seq<char> {
        seq![self.step.letter_spec()] + self.accidental.kind.to_modifier_spec()
    }

    /// The pitch of a pitch-space value in its simplest spelling. The value is
    /// kept: the pitch's own pitch-space value is `ps` again.
    #[verifier::opaque]
    pub open spec fn from_ps_spec(ps: int) -> Pitch {
        let above = ps_above_class(ps);
        let alter = quarter_tone_alter(above);
        let spelling = simplest_spelling(ps_pitch_class(ps), alter);
        Pitch {
            step: spelling.step,
            octave: Some((ps_octave(ps) + spelling.octave_shift) as IntegerType),
            accidental: Accidental { kind: AccidentalEnum::from_alter_spec(spelling.alter)->Some_0 },
            microtone: if above == alter {
                None
            } else {
                Some(Microtone { cent_shift: (above - alter) as i32 })
            },
            spelling_is_inferred: true,
        }
    }

    /// Whether the octave of a pitch-space value is one that a pitch can hold.
    pub open spec fn ps_representable(ps: int) -> bool {
        IntegerType::MIN <= ps_octave(ps) && ps_octave(ps) + 1 <= IntegerType::MAX
    }

    /// A natural pitch without microtone on a step, in an octave or in none.
    pub fn natural(step: StepName, octave: Octave) -> (p: Pitch)
        ensures
            p == (Pitch {
                step,
                octave,
                accidental: Accidental { kind: AccidentalEnum::Natural },
                microtone: None,
                spelling_is_inferred: false,
            }),
    {
        Pitch {
            step,
            octave,
            accidental: Accidental::natural(),
            microtone: None,
            spelling_is_inferred: false,
        }
    }

    /// The alteration of the pitch in millionths of a semitone.
    pub fn alter(&self) -> (alter: IntegerType)
        ensures
            alter == self.alter_spec(),
    {
        let mut post: IntegerType = self.accidental.alter();
        if let Some(microtone) = &self.microtone {
            post = post + microtone.alter();
        }
        post
    }

    /// The octave that the pitch sounds in: its own, or the fourth.
    pub fn implicit_octave(&self) -> (octave: IntegerType)
        ensures
            octave == self.implicit_octave_spec(),
    {
        match self.octave {
            Some(o) => o,
            None => PITCH_OCTAVE as IntegerType,
        }
    }

    /// The pitch-space value in millionths of a semitone.
    pub fn ps(&self) -> (ps: i128)
        ensures
            ps == self.ps_spec(),
    {
        let octave = self.implicit_octave() as i128;
        let semitones: i128 = (octave + 1) * 12 + self.step.step_ref() as i128;
        assert(-120_000_000_000_000_000_000_000_000 <= semitones * SEMITONE
            <= 120_000_000_000_000_000_000_000_000) by (nonlinear_arith)
            requires
                -120_000_000_000_000_000_000 <= semitones <= 120_000_000_000_000_000_000,
                SEMITONE == 1_000_000,
        ;
        semitones * (SEMITONE as i128) + self.alter() as i128
    }

    /// The place of the pitch's step on an endless staff.
    pub fn diatonic_note_num(&self) -> (n: i128)
        ensures
            n == self.diatonic_note_num_spec(),
    {
        self.step.step_to_dnn_offset() as i128 + 7 * (self.implicit_octave() as i128)
    }

    /// Whether two pitches have one name.
    pub fn same_name(&self, other: &Pitch) -> (same: bool)
        ensures
            same == self.same_name_spec(other),
    {
        self.step == other.step && self.accidental == other.accidental
    }

    /// The name of the pitch: the step's letter and the accidental's sign.
    pub fn name(&self) -> (text: String)
        ensures
            text@ == self.name_spec(),
    {
        let mut letter: Vec<char> = Vec::new();
        letter.push(self.step.letter());
        assert(letter@ == seq![self.step.letter_spec()]);
        string_from_chars(&letter).concat(self.accidental.modifier())
    }

    /// The name of the pitch, followed by its octave where it has one.
    pub open spec fn name_with_octave_spec(&self) -> Seq<char> {
        match self.octave {
            None => self.name_spec(),
            Some(octave) => self.name_spec() + signed_decimal_of(octave as int),
        }
    }

    /// The name of the pitch, followed by its octave where it has one.
    pub fn name_with_octave(&self) -> (text: String)
        ensures
            text@ == self.name_with_octave_spec(),
    {
        match self.octave {
            None => self.name(),
            Some(octave) => self.name().concat(signed_decimal_text(octave).as_str()),
        }
    }

    /// Puts the pitch on another step. The spelling then counts as inferred.
    pub fn step_setter(&mut self, step_name: StepName)
        ensures
            *final(self) == (Pitch { step: step_name, spelling_is_inferred: true, ..*old(self) }),
    {
        self.step = step_name;
        self.spelling_is_inferred = true;
    }

    pub fn octave_setter(&mut self, octave: Octave)
        ensures
            *final(self) == (Pitch { octave, ..*old(self) }),
    {
        self.octave = octave;
    }

    pub fn accidental_setter(&mut self, value: Accidental)
        ensures
            *final(self) == (Pitch { accidental: value, ..*old(self) }),
    {
        self.accidental = value;
    }

    pub fn microtone_setter(&mut self, mt: Microtone)
        ensures
            *final(self) == (Pitch { microtone: Some(mt), ..*old(self) }),
    {
        self.microtone = Some(mt);
    }

    /// The step, the accidental and the microtone of a pitch-space value in
    /// its simplest spelling, and 1 where the octave is one more than the
    /// value says, as for a B raised to C.
    pub fn parts_of_ps(ps: i128) -> (parts: (StepName, Accidental, Option<Microtone>, i128))
        ensures
            parts.0 == Pitch::from_ps_spec(ps as int).step,
            parts.1 == Pitch::from_ps_spec(ps as int).accidental,
            parts.2 == Pitch::from_ps_spec(ps as int).microtone,
            parts.3 == simplest_spelling(
                ps_pitch_class(ps as int),
                quarter_tone_alter(ps_above_class(ps as int)),
            ).octave_shift,
            0 <= parts.3 <= 1,
            (ps_octave(ps as int) + 1 + parts.3) * 12 * SEMITONE + parts.0.ref_spec() * SEMITONE
                + parts.1.alter_spec() + (match parts.2 {
                Some(m) => m.alter_spec(),
                None => 0,
            }) == ps,
    {
        reveal(Pitch::from_ps_spec);
        let span: i128 = 12 * (SEMITONE as i128);
        let in_octave = floor_mod(ps, span);
        let pc = in_octave / (SEMITONE as i128);
        let above = floor_mod(ps, SEMITONE as i128);
        proof {
            lemma_ps_parts(ps as int);
        }
        let alter: i128 = if 250_000 < above && above < 750_000 {
            500_000
        } else if above >= 750_000 {
            1_000_000
        } else {
            0
        };
        let mut shift: i128 = 0;
        let step: StepName;
        let acc: i128;
        if pc == 4 && alter == 1_000_000 {
            step = StepName::F;
            acc = 0;
        } else if pc == 11 && alter == 1_000_000 {
            step = StepName::C;
            acc = 0;
            shift = 1;
        } else if pc == 0 {
            step = StepName::C;
            acc = alter;
        } else if pc == 2 {
            step = StepName::D;
            acc = alter;
        } else if pc == 4 {
            step = StepName::E;
            acc = alter;
        } else if pc == 5 {
            step = StepName::F;
            acc = alter;
        } else if pc == 7 {
            step = StepName::G;
            acc = alter;
        } else if pc == 9 {
            step = StepName::A;
            acc = alter;
        } else if pc == 11 {
            step = StepName::B;
            acc = alter;
        } else if pc == 1 {
            if alter >= 1_000_000 {
                step = StepName::D;
                acc = alter - 1_000_000;
            } else {
                step = StepName::C;
                acc = 1_000_000 + alter;
            }
        } else if pc == 6 {
            if alter >= 1_000_000 {
                step = StepName::G;
                acc = alter - 1_000_000;
            } else {
                step = StepName::F;
                acc = 1_000_000 + alter;
            }
        } else if pc == 8 {
            if alter >= 1_000_000 {
                step = StepName::A;
                acc = alter - 1_000_000;
            } else {
                step = StepName::G;
                acc = 1_000_000 + alter;
            }
        } else if pc == 3 {
            step = StepName::E;
            acc = alter - 1_000_000;
        } else {
            step = StepName::B;
            acc = alter - 1_000_000;
        }
        let kind = AccidentalEnum::from_alter(acc as IntegerType);
        let accidental = match kind {
            Some(k) => Accidental { kind: k },
            None => Accidental::natural(),
        };
        let microtone = if above == alter {
            None
        } else {
            Some(Microtone { cent_shift: (above - alter) as i32 })
        };
        (step, accidental, microtone, shift)
    }

    /// The step and the accidental of a pitch-space value in its simplest
    /// spelling.
    pub fn spelling_of_ps(ps: i128) -> (spelling: (StepName, Accidental))
        ensures
            spelling.0 == Pitch::from_ps_spec(ps as int).step,
            spelling.1 == Pitch::from_ps_spec(ps as int).accidental,
    {
        let (step, accidental, _, _) = Pitch::parts_of_ps(ps);
        (step, accidental)
    }

    /// The pitch of a pitch-space value in its simplest spelling, unless its
    /// octave is beyond what a pitch can hold.
    pub fn from_ps(ps: i128) -> (r: ExceptionResult<Pitch>)
        ensures
            r is Ok <==> Pitch::ps_representable(ps as int),
            r is Ok ==> r->Ok_0 == Pitch::from_ps_spec(ps as int) && r->Ok_0.ps_spec() == ps,
            r is Err ==> r->Err_0 is Pitch,
    {
        let span: i128 = 12 * (SEMITONE as i128);
        let quotient = floor_div(ps, span);
        if quotient <= (IntegerType::MIN as i128) || quotient > (IntegerType::MAX as i128) {
            return Err(
                Exception::Pitch(String::from_str("the octave of this pitch space value is out of range")),
            );
        }
        let octave = quotient - 1;
        let (step, accidental, microtone, shift) = Pitch::parts_of_ps(ps);
        let p = Pitch {
            step,
            octave: Some((octave + shift) as IntegerType),
            accidental,
            microtone,
            spelling_is_inferred: true,
        };
        proof {
            reveal(Pitch::from_ps_spec);
        }
        Ok(p)
    }
}

/// A pitch-space value is its octave, its pitch class and what it has above
/// the class, put together again.
pub proof fn lemma_ps_parts(ps: int)
    ensures
        0 <= ps_pitch_class(ps) <= 11,
        0 <= ps_above_class(ps) < SEMITONE,
        ps == ((ps_octave(ps) + 1) * 12 + ps_pitch_class(ps)) * SEMITONE + ps_above_class(ps),
        ps_above_class(ps) == (ps % octave_span()) % (SEMITONE as int),
{
    let span = octave_span();
    let m = ps % span;
    vstd::arithmetic::div_mod::lemma_fundamental_div_mod(ps, span);
    vstd::arithmetic::div_mod::lemma_fundamental_div_mod(m, SEMITONE as int);
    vstd::arithmetic::div_mod::lemma_mod_mod(ps, SEMITONE as int, 12);
    assert(SEMITONE * 12 == span);
}

/// Two pitches are enharmonic: they sound the same but for whole octaves.
pub open spec fn are_enharmonic(p: Pitch, q: Pitch) -> bool {
    (q.ps_spec() - p.ps_spec()) % octave_span() == 0
}

/// The simplest spelling of a pitch-space value keeps the value, has an
/// accidental of at most a semitone and a half, and has an octave.
pub proof fn lemma_from_ps_keeps(ps: int)
    requires
        Pitch::ps_representable(ps),
    ensures
        Pitch::from_ps_spec(ps).ps_spec() == ps,
        Pitch::from_ps_spec(ps).octave is Some,
        -1_500_000 <= Pitch::from_ps_spec(ps).accidental.alter_spec() <= 1_500_000,
{
    reveal(Pitch::from_ps_spec);
    lemma_ps_parts(ps);
    let above = ps_above_class(ps);
    let alter = quarter_tone_alter(above);
    let spelling = simplest_spelling(ps_pitch_class(ps), alter);
    assert(AccidentalEnum::from_alter_spec(spelling.alter) is Some);
    assert(AccidentalEnum::from_alter_spec(spelling.alter)->Some_0.alter_spec() == spelling.alter);
    assert(spelling.step.ref_spec() * SEMITONE + spelling.alter + 12 * SEMITONE
        * spelling.octave_shift == ps_pitch_class(ps) * SEMITONE + alter);
}

} // verus!
