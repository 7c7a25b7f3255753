use super::chromaticinterval::ChromaticInterval;
use super::direction::Direction;
use super::genericinterval::{
    generic_direction, generic_is_perfectable, generic_simple_undirected, generic_staff_distance,
    generic_undirected, major_scale_semitones, GenericInterval,
};
use super::specifier::Specifier;
use crate::defaults::{IntegerType, UnsignedIntegerType};
use crate::exception::{Exception, ExceptionResult};
use crate::common::stringtools::{decimal_of, decimal_text};
use vstd::prelude::*;
use vstd::string::*;

verus! {

/// The semitones of a diatonic interval of a size and a quality, with the
/// sign of its direction; `None` where the size cannot have the quality.
pub open spec fn diatonic_semitones(value: int, specifier: Specifier) -> Option<int> {
    let adjust = if generic_is_perfectable(value) {
        specifier.semitones_above_perfect_spec()
    } else {
        specifier.semitones_above_major_spec()
    };
    match adjust {
        None => None,
        Some(adjust) => {
            let octaves = generic_undirected(generic_staff_distance(value)) / 7;
            let semitones = octaves * 12 + major_scale_semitones(generic_simple_undirected(value))
                + adjust;
            if generic_direction(value) == Direction::Descending {
                Some(-semitones)
            } else {
                Some(semitones)
            }
        },
    }
}

/// An interval by its size on the staff and its quality.
#[derive(Debug, Clone, Copy)]
pub struct DiatonicInterval {
    pub generic: GenericInterval,
    pub specifier: Specifier,
}

impl DiatonicInterval {
    pub fn new(specifier: Specifier, generic: &GenericInterval) -> (d: Self)
        ensures
            d.generic.value_spec() == generic.value_spec(),
            d.specifier == specifier,
    {
        Self { generic: *generic, specifier }
    }

    /// The same interval counted in semitones. A size that cannot have the
    /// quality, and a number of semitones that does not fit, are errors.
    pub fn get_chromatic(&self) -> (r: ExceptionResult<ChromaticInterval>)
        ensures
            r is Ok <==> {
                &&& diatonic_semitones(self.generic.value_spec(), self.specifier) matches Some(s)
                &&& IntegerType::MIN <= s <= IntegerType::MAX
            },
            r is Ok ==> Some(r->Ok_0.semitones as int) == diatonic_semitones(
                self.generic.value_spec(),
                self.specifier,
            ),
            r is Err ==> r->Err_0 is Interval,
    {
        let staff = self.generic.staff_distance();
        let staff_size: i128 = if staff < 0 {
            -(staff as i128)
        } else {
            staff as i128
        };
        let octave_offset: i128 = staff_size / 7;
        let semitones_start = semitones_generic(self.generic.simple_undirected() as u64);
        let semitones_start = match semitones_start {
            Ok(start) => start as i128,
            Err(e) => {
                return Err(e);
            },
        };
        let semitones_adjust = if self.generic.is_perfectable() {
            self.specifier.semitones_above_perfect()
        } else {
            self.specifier.semitones_above_major()
        };
        let semitones_adjust = match semitones_adjust {
            Some(adjust) => adjust as i128,
            None => {
                return Err(
                    Exception::Interval(
                        self.specifier.nice_name().concat(" is no quality of an interval of this size"),
                    ),
                );
            },
        };
        let mut semitones: i128 = (octave_offset * 12) + semitones_start + semitones_adjust;
        if self.generic.direction() == Direction::Descending {
            semitones = -semitones;
        }
        if semitones < (IntegerType::MIN as i128) || semitones > (IntegerType::MAX as i128) {
            return Err(Exception::Interval(String::from_str("Interval is out of range")));
        }
        Ok(ChromaticInterval::new(semitones as IntegerType))
    }

    /// The same interval the other way.
    pub fn reverse(&self) -> (d: DiatonicInterval)
        ensures
            d.specifier == self.specifier,
            d.generic.value_spec() == if generic_undirected(self.generic.value_spec()) == 1 {
                1
            } else {
                -self.generic.value_spec()
            },
    {
        DiatonicInterval { generic: self.generic.reverse(), specifier: self.specifier }
    }
}

/// Semitones from the first degree of a major scale up to a degree from 1 to
/// 7; there is no other degree.
pub fn semitones_generic(degree: UnsignedIntegerType) -> (r: ExceptionResult<UnsignedIntegerType>)
    ensures
        r is Ok <==> 1 <= degree <= 7,
        r is Ok ==> r->Ok_0 == major_scale_semitones(degree as int),
        r is Err ==> r->Err_0 is Interval && r->Err_0.message_spec()
            == "Invalid diatonic interval: "@ + decimal_of(degree as nat),
{
    if degree == 1 {
        Ok(0)
    } else if degree == 2 {
        Ok(2)
    } else if degree == 3 {
        Ok(4)
    } else if degree == 4 {
        Ok(5)
    } else if degree == 5 {
        Ok(7)
    } else if degree == 6 {
        Ok(9)
    } else if degree == 7 {
        Ok(11)
    } else {
        Err(
            Exception::Interval(
                String::from_str("Invalid diatonic interval: ").concat(decimal_text(degree).as_str()),
            ),
        )
    }
}

} // verus!
