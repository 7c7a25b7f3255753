use super::accidental::{Accidental, AccidentalEnum};
use super::microtone::Microtone;
use super::pitchclassstring::PitchClassString;
use super::Pitch;
use crate::common::stringtools::{
    chars_between, digits_value, find_first_digit, first_digit, is_number, lowercase_of,
    parse_number, str_to_chars, string_from_chars, trim, trimmed_of,
};
use crate::defaults::{IntegerType, Octave, SEMITONE};
use crate::exception::{Exception, ExceptionResult};
use crate::stepname::StepName;
use vstd::prelude::*;
use vstd::string::*;

verus! {

/// What a pitch name reads as: a step, an accidental and perhaps an octave,
/// or what is wrong with it.
pub enum NameReading {
    Parts(StepName, AccidentalEnum, Octave),
    OctaveFirst,
    NoName,
    NoStep,
    NoAccidental,
    NoOctave,
}

/// The accidental that the text between the step and the octave names: a
/// natural where there is none.
pub open spec fn read_accidental(text: Seq<char>) -> Option<AccidentalEnum> {
    if text.len() == 0 {
        Some(AccidentalEnum::Natural)
    } else {
        AccidentalEnum::from_string_spec(lowercase_of(text))
    }
}

/// The octave that the text from the first digit on writes; `None` where
/// it is no number that fits. No text is no octave.
pub open spec fn read_octave(text: Seq<char>) -> Option<Octave> {
    if text.len() == 0 {
        Some(None)
    } else if is_number(text) && digits_value(text) <= IntegerType::MAX {
        Some(Some(digits_value(text) as IntegerType))
    } else {
        None
    }
}

/// A pitch name read: its first letter is the step, what follows up to the
/// first digit is the accidental, and from the first digit on it is the
/// octave.
pub open spec fn read_name(text: Seq<char>) -> NameReading {
    let digit = first_digit(text);
    if text.len() == 0 {
        NameReading::NoName
    } else if digit == 0 {
        NameReading::OctaveFirst
    } else {
        match StepName::of_letter(text[0]) {
            None => NameReading::NoStep,
            Some(step) => match read_accidental(text.subrange(1, digit)) {
                None => NameReading::NoAccidental,
                Some(kind) => match read_octave(text.subrange(digit, text.len() as int)) {
                    None => NameReading::NoOctave,
                    Some(octave) => NameReading::Parts(step, kind, octave),
                },
            },
        }
    }
}

/// A result says what a name reads as: its parts, or the error of the part
/// that is wrong.
pub open spec fn name_read_as(
    r: ExceptionResult<(StepName, Accidental, Octave)>,
    reading: NameReading,
) -> bool {
    match reading {
        NameReading::Parts(step, kind, octave) => r is Ok && r->Ok_0 == (
            step,
            Accidental { kind },
            octave,
        ),
        NameReading::OctaveFirst => r is Err && r->Err_0 is Pitch,
        NameReading::NoName => r is Err && r->Err_0 is Pitch,
        NameReading::NoStep => r is Err && r->Err_0 is StepName,
        NameReading::NoAccidental => r is Err && r->Err_0 is Accidental,
        NameReading::NoOctave => r is Err && r->Err_0 is Pitch,
    }
}

/// Reads a pitch name without white space around it: its step, its
/// accidental and its octave, where it has one.
pub fn read_pitch_name(name: &str) -> (r: ExceptionResult<(StepName, Accidental, Octave)>)
    ensures
        name_read_as(r, read_name(name@)),
{
    let chars = str_to_chars(name);
    let digit_index = find_first_digit(&chars);
    if chars.len() == 0 {
        return Err(
            Exception::Pitch(String::from_str("Cannot make a name out of \"").concat(name).concat("\"")),
        );
    }
    if digit_index == 0 {
        return Err(
            Exception::Pitch(
                String::from_str("Cannot have octave given before pitch name in \"").concat(
                    name,
                ).concat("\""),
            ),
        );
    }
    // Process the pitch part.
    let step = match StepName::from_char(chars[0]) {
        Ok(step) => step,
        Err(e) => {
            return Err(e);
        },
    };
    let accidental_chars = chars_between(&chars, 1, digit_index);
    let accidental = if accidental_chars.len() == 0 {
        Accidental::natural()
    } else {
        let accidental_str = string_from_chars(&accidental_chars);
        match Accidental::new(accidental_str.as_str()) {
            Ok(accidental) => accidental,
            Err(e) => {
                return Err(e);
            },
        }
    };
    let octave_chars = chars_between(&chars, digit_index, chars.len());
    let octave = if octave_chars.len() == 0 {
        None
    } else {
        match parse_number(&octave_chars) {
            Some(octave) => Some(octave),
            None => {
                return Err(
                    Exception::Pitch(
                        String::from_str("Cannot parse \"").concat(
                            string_from_chars(&octave_chars).as_str(),
                        ).concat("\" to octave"),
                    ),
                );
            },
        }
    };
    Ok((step, accidental, octave))
}

/// What a pitch can be named by: a name, or the number of its semitones
/// above the C five octaves below middle C.
pub enum PitchName {
    Name(String),
    Number(IntegerType),
}

/// The pitch with the name that a text reads as: the octave stays where the
/// name gives none, and the spelling counts as inferred.
pub open spec fn named(p: Pitch, step: StepName, kind: AccidentalEnum, octave: Octave) -> Pitch {
    Pitch {
        step,
        accidental: Accidental { kind },
        octave: if octave is Some {
            octave
        } else {
            p.octave
        },
        spelling_is_inferred: true,
        ..p
    }
}

/// The pitch of a number of semitones in its simplest spelling, with an
/// octave from the twelfth semitone on.
pub open spec fn numbered(p: Pitch, number: IntegerType) -> Pitch {
    let spelled = Pitch::from_ps_spec(number * SEMITONE);
    Pitch {
        step: spelled.step,
        accidental: spelled.accidental,
        octave: if number >= 12 {
            Some((number / 12 - 1) as IntegerType)
        } else {
            None
        },
        spelling_is_inferred: true,
        ..p
    }
}

/// The pitch with the pitch class that a letter stands for: B flat for ten,
/// B for eleven.
pub open spec fn with_pitch_class(p: Pitch, pc: PitchClassString) -> Pitch {
    Pitch {
        step: StepName::B,
        accidental: Accidental {
            kind: if pc.number_spec() == 10 {
                AccidentalEnum::Flat
            } else {
                AccidentalEnum::Natural
            },
        },
        spelling_is_inferred: true,
        ..p
    }
}

/// The pitch that a name alone gives: a pitch without octave or microtone
/// takes the name. `None` where the name cannot be read.
pub open spec fn pitch_named(text: Seq<char>) -> Option<Pitch> {
    let start = Pitch {
        step: StepName::C,
        octave: None,
        accidental: Accidental { kind: AccidentalEnum::Natural },
        microtone: None,
        spelling_is_inferred: true,
    };
    match read_name(trimmed_of(text)) {
        NameReading::Parts(step, kind, octave) => Some(named(start, step, kind, octave)),
        _ => None,
    }
}

impl Pitch {
    /// The pitch that a name alone gives.
    pub fn from_name(name: &str) -> (r: ExceptionResult<Pitch>)
        ensures
            r is Ok <==> pitch_named(name@) is Some,
            r is Ok ==> Some(r->Ok_0) == pitch_named(name@),
            r is Err ==> r->Err_0 is Pitch || r->Err_0 is StepName || r->Err_0 is Accidental,
    {
        let mut pitch = Pitch {
            step: StepName::C,
            octave: None,
            accidental: Accidental::natural(),
            microtone: None,
            spelling_is_inferred: true,
        };
        match pitch.name_setter(name) {
            Ok(()) => Ok(pitch),
            Err(e) => Err(e),
        }
    }

    /// Gives the pitch the name that a text reads as, white space around it
    /// apart. A name that cannot be read is an error and changes nothing.
    pub fn name_setter(&mut self, usr_str: &str) -> (r: ExceptionResult<()>)
        ensures
            match read_name(trimmed_of(usr_str@)) {
                NameReading::Parts(step, kind, octave) => r is Ok && *final(self) == named(
                    *old(self),
                    step,
                    kind,
                    octave,
                ),
                NameReading::NoStep => r is Err && r->Err_0 is StepName && *final(self) == *old(
                    self,
                ),
                NameReading::NoAccidental => r is Err && r->Err_0 is Accidental && *final(self)
                    == *old(self),
                _ => r is Err && r->Err_0 is Pitch && *final(self) == *old(self),
            },
    {
        let trimmed = trim(usr_str);
        let (step, accidental, octave) = match read_pitch_name(trimmed.as_str()) {
            Ok(parts) => parts,
            Err(e) => {
                return Err(e);
            },
        };
        self.step_setter(step);
        self.accidental_setter(accidental);
        if octave.is_some() {
            self.octave_setter(octave);
        }
        Ok(())
    }

    /// Gives the pitch the pitch class that a letter stands for.
    pub fn pitch_class_setter(&mut self, pc: PitchClassString)
        ensures
            *final(self) == with_pitch_class(*old(self), pc),
    {
        self.step_setter(StepName::B);
        if pc.to_number() == 10 {
            self.accidental_setter(Accidental::flat());
        } else {
            self.accidental_setter(Accidental::natural());
        }
    }

    /// Makes the pitch that of a pitch-space value in millionths of a
    /// semitone, in its simplest spelling. A value beyond the octaves that a
    /// pitch can hold is an error and changes nothing.
    pub fn ps_setter(&mut self, ps: i128) -> (r: ExceptionResult<()>)
        ensures
            r is Ok <==> Pitch::ps_representable(ps as int),
            r is Ok ==> *final(self) == Pitch::from_ps_spec(ps as int),
            r is Err ==> r->Err_0 is Pitch && *final(self) == *old(self),
    {
        match Pitch::from_ps(ps) {
            Ok(p) => {
                *self = p;
                Ok(())
            },
            Err(e) => Err(e),
        }
    }

    /// Makes the pitch that of a number of semitones above the C five
    /// octaves below middle C, in its simplest spelling.
    pub fn midi_setter(&mut self, midi: IntegerType) -> (r: ExceptionResult<()>)
        ensures
            r is Ok <==> Pitch::ps_representable(midi * SEMITONE),
            r is Ok ==> *final(self) == Pitch::from_ps_spec(midi * SEMITONE),
            r is Err ==> r->Err_0 is Pitch && *final(self) == *old(self),
    {
        assert(-10_000_000_000_000_000_000_000_000 <= midi * SEMITONE
            <= 10_000_000_000_000_000_000_000_000) by (nonlinear_arith)
            requires
                -10_000_000_000_000_000_000 <= midi <= 10_000_000_000_000_000_000,
                SEMITONE == 1_000_000,
        ;
        self.ps_setter((midi as i128) * (SEMITONE as i128))
    }

    /// What `new` makes of what it is given; `None` where something given
    /// cannot be read or held. The name comes first, or the step where
    /// there is no name; then what else is given, each in its turn, the
    /// later over the earlier: octave, accidental, microtone, pitch class,
    /// MIDI number, pitch-space value.
    pub open spec fn new_spec(
        name: Option<PitchName>,
        step: Option<StepName>,
        octave: Octave,
        accidental: Option<Accidental>,
        microtone: Option<Microtone>,
        pitch_class: Option<PitchClassString>,
        midi: Option<IntegerType>,
        ps: Option<i128>,
    ) -> Option<Pitch> {
        let start = Pitch {
            step: StepName::C,
            octave: None,
            accidental: Accidental { kind: AccidentalEnum::Natural },
            microtone: None,
            spelling_is_inferred: true,
        };
        let by_name = match name {
            Some(PitchName::Name(text)) => pitch_named(text@),
            Some(PitchName::Number(number)) => Some(numbered(start, number)),
            None => match step {
                Some(step) => Some(Pitch { step, ..start }),
                None => Some(start),
            },
        };
        match by_name {
            None => None,
            Some(p) => {
                let p = if octave is Some {
                    Pitch { octave, ..p }
                } else {
                    p
                };
                let p = match accidental {
                    Some(a) => Pitch { accidental: a, ..p },
                    None => p,
                };
                let p = match microtone {
                    Some(m) => Pitch { microtone: Some(m), ..p },
                    None => p,
                };
                let p = match pitch_class {
                    Some(pc) => with_pitch_class(p, pc),
                    None => p,
                };
                let p = match midi {
                    Some(m) => if Pitch::ps_representable(m * SEMITONE) {
                        Some(Pitch::from_ps_spec(m * SEMITONE))
                    } else {
                        None
                    },
                    None => Some(p),
                };
                match (p, ps) {
                    (None, _) => None,
                    (Some(p), None) => Some(p),
                    (Some(_), Some(value)) => if Pitch::ps_representable(value as int) {
                        Some(Pitch::from_ps_spec(value as int))
                    } else {
                        None
                    },
                }
            },
        }
    }

    /// A pitch from what is known of it: a name or a step, and whatever
    /// else is given, the later over the earlier.
    #[allow(clippy::too_many_arguments)]
    pub fn new(
        name: Option<PitchName>,
        step: Option<StepName>,
        octave: Octave,
        accidental: Option<Accidental>,
        microtone: Option<Microtone>,
        pitch_class: Option<PitchClassString>,
        midi: Option<IntegerType>,
        ps: Option<i128>,
    ) -> (r: ExceptionResult<Self>)
        ensures
            r is Ok <==> Pitch::new_spec(
                name,
                step,
                octave,
                accidental,
                microtone,
                pitch_class,
                midi,
                ps,
            ) is Some,
            r is Ok ==> Some(r->Ok_0) == Pitch::new_spec(
                name,
                step,
                octave,
                accidental,
                microtone,
                pitch_class,
                midi,
                ps,
            ),
            r is Err ==> r->Err_0 is Pitch || r->Err_0 is StepName || r->Err_0 is Accidental,
    {
        // --- Step 1: the name, or the step ---
        let mut pitch = Pitch {
            step: StepName::C,
            octave: None,
            accidental: Accidental::natural(),
            microtone: None,
            spelling_is_inferred: true,
        };
        match &name {
            Some(PitchName::Name(text)) => {
                match pitch.name_setter(text.as_str()) {
                    Ok(()) => {},
                    Err(e) => {
                        return Err(e);
                    },
                }
            },
            Some(PitchName::Number(number)) => {
                pitch = pitch_of_number(&pitch, *number);
            },
            None => {
                if let Some(s) = step {
                    pitch.step_setter(s);
                }
            },
        }
        // --- Step 2: what else is given, in its order ---
        if octave.is_some() {
            pitch.octave_setter(octave);
        }
        if let Some(acc) = accidental {
            pitch.accidental_setter(acc);
        }
        if let Some(mt) = microtone {
            pitch.microtone_setter(mt);
        }
        if let Some(pc) = pitch_class {
            pitch.pitch_class_setter(pc);
        }
        if let Some(m) = midi {
            match pitch.midi_setter(m) {
                Ok(()) => {},
                Err(e) => {
                    return Err(e);
                },
            }
        }
        if let Some(p) = ps {
            match pitch.ps_setter(p) {
                Ok(()) => {},
                Err(e) => {
                    return Err(e);
                },
            }
        }
        Ok(pitch)
    }
}

/// The pitch of a number of semitones in its simplest spelling, with an
/// octave from the twelfth semitone on.
pub fn pitch_of_number(p: &Pitch, number: IntegerType) -> (q: Pitch)
    ensures
        q == numbered(*p, number),
{
    assert(-10_000_000_000_000_000_000_000_000 <= number * SEMITONE
        <= 10_000_000_000_000_000_000_000_000) by (nonlinear_arith)
        requires
            -10_000_000_000_000_000_000 <= number <= 10_000_000_000_000_000_000,
            SEMITONE == 1_000_000,
    ;
    let (step, accidental) = Pitch::spelling_of_ps((number as i128) * (SEMITONE as i128));
    let octave = if number >= 12 {
        Some(number / 12 - 1)
    } else {
        None
    };
    Pitch { step, accidental, octave, spelling_is_inferred: true, ..*p }
}

} // verus!
