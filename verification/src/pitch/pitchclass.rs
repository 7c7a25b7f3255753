use super::pitchclassstring::PitchClassString;
use crate::common::math::floor_div;
use crate::common::stringtools::string_from_chars;
use crate::defaults::{IntegerType, SEMITONE};
use vstd::prelude::*;

verus! {

/// A pitch class as it may be given: by its number, by a pitch-space value
/// in millionths of a semitone, or by a letter for ten or eleven.
#[allow(clippy::enum_variant_names)]
#[derive(Debug, Clone, Copy)]
pub enum PitchClass {
    Integer(IntegerType),
    PitchSpace(IntegerType),
    PitchClassString(PitchClassString),
}

impl PitchClass {
    /// The pitch class in millionths of a semitone.
    pub open spec fn value_spec(&self) -> int {
        match self {
            PitchClass::Integer(i) => i * SEMITONE,
            PitchClass::PitchSpace(ps) => *ps as int,
            PitchClass::PitchClassString(s) => s.number_spec() * SEMITONE,
        }
    }

    /// The pitch class in millionths of a semitone.
    pub fn value(&self) -> (v: i128)
        ensures
            v == self.value_spec(),
    {
        match self {
            PitchClass::Integer(i) => (*i as i128) * (SEMITONE as i128),
            PitchClass::PitchSpace(ps) => *ps as i128,
            PitchClass::PitchClassString(s) => {
                let number = s.to_number();
                assert(0 <= number * SEMITONE <= 11_000_000) by (nonlinear_arith)
                    requires
                        number == 10 || number == 11,
                        SEMITONE == 1_000_000,
                ;
                (number as i128) * (SEMITONE as i128)
            },
        }
    }
}

/// The digit of a pitch class, in the notation that writes ten as A and
/// eleven as B.
pub open spec fn pitch_class_digit(pc: int) -> char {
    let class = pc % 12;
    if class == 0 {
        '0'
    } else if class == 1 {
        '1'
    } else if class == 2 {
        '2'
    } else if class == 3 {
        '3'
    } else if class == 4 {
        '4'
    } else if class == 5 {
        '5'
    } else if class == 6 {
        '6'
    } else if class == 7 {
        '7'
    } else if class == 8 {
        '8'
    } else if class == 9 {
        '9'
    } else if class == 10 {
        'A'
    } else {
        'B'
    }
}

/// The pitch class of any whole number as one digit: the number modulo 12,
/// which is never negative, with A for ten and B for eleven.
pub fn convert_pitch_class_to_str(pc: i32) -> (text: String)
    ensures
        text@ == seq![pitch_class_digit(pc as int)],
{
    // The remainder is taken so that it is never negative.
    let class = crate::common::math::floor_mod(pc as i128, 12);
    let digit = if class == 0 {
        '0'
    } else if class == 1 {
        '1'
    } else if class == 2 {
        '2'
    } else if class == 3 {
        '3'
    } else if class == 4 {
        '4'
    } else if class == 5 {
        '5'
    } else if class == 6 {
        '6'
    } else if class == 7 {
        '7'
    } else if class == 8 {
        '8'
    } else if class == 9 {
        '9'
    } else if class == 10 {
        'A'
    } else {
        'B'
    };
    let mut chars: Vec<char> = Vec::new();
    chars.push(digit);
    assert(chars@ == seq![digit]);
    string_from_chars(&chars)
}

/// The octave of a pitch-space value in millionths of a semitone: 4 from
/// 60 000 000 up to 72 000 000.
pub fn convert_ps_to_oct(ps: i128) -> (octave: i128)
    requires
        ps > i128::MIN + 12_000_000,
    ensures
        octave == crate::pitch::ps_octave(ps as int),
{
    floor_div(ps, 12 * (SEMITONE as i128)) - 1
}

} // verus!
