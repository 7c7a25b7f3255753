use super::diatonicinterval::DiatonicInterval;
use super::direction::Direction;
use super::genericinterval::GenericInterval;
use super::specifier::Specifier;
use crate::defaults::{IntegerType, SEMITONE};
use crate::exception::{Exception, ExceptionResult};
use crate::pitch::Pitch;
use vstd::prelude::*;
use vstd::string::*;

verus! {

/// The quality by which a number of semitones within the octave is read
/// when nothing else is known: the tritone as a diminished fifth.
pub open spec fn semitones_to_specifier(size: int) -> Specifier {
    if size == 0 || size == 5 || size == 7 {
        Specifier::Perfect
    } else if size == 1 || size == 3 || size == 8 || size == 10 {
        Specifier::Minor
    } else if size == 6 {
        Specifier::Diminished
    } else {
        Specifier::Major
    }
}

/// The size on the staff by which a number of semitones within the octave is
/// read when nothing else is known.
pub open spec fn semitones_to_generic(size: int) -> int {
    if size == 0 {
        1
    } else if size <= 2 {
        2
    } else if size <= 4 {
        3
    } else if size == 5 {
        4
    } else if size <= 7 {
        5
    } else if size <= 9 {
        6
    } else {
        7
    }
}

/// The size on the staff, with its direction, by which a number of semitones
/// is read when nothing else is known.
pub open spec fn chromatic_to_generic(semitones: int) -> int {
    let size = if semitones < 0 {
        -semitones
    } else {
        semitones
    };
    let generic = semitones_to_generic(size % 12) + (size / 12) * 7;
    if semitones < 0 {
        -generic
    } else {
        generic
    }
}

/// An interval counted in semitones, with the sign of its direction.
#[derive(Debug, PartialEq, Eq, Clone, Copy, Structural)]
pub struct ChromaticInterval {
    pub semitones: IntegerType,
}

impl ChromaticInterval {
    pub fn new(semitones: IntegerType) -> (c: Self)
        ensures
            c.semitones == semitones,
    {
        Self { semitones }
    }

    pub fn direction(&self) -> (d: Direction)
        ensures
            d == Direction::of_sign(self.semitones as int),
    {
        if self.semitones < 0 {
            Direction::Descending
        } else if self.semitones == 0 {
            Direction::Oblique
        } else {
            Direction::Ascending
        }
    }

    /// The same interval by its size on the staff and its quality, read in
    /// the most usual way.
    pub fn get_diatonic(&self) -> (d: DiatonicInterval)
        ensures
            d.generic.value_spec() == chromatic_to_generic(self.semitones as int),
            d.specifier == semitones_to_specifier(
                (if self.semitones < 0 {
                    -(self.semitones as int)
                } else {
                    self.semitones as int
                }) % 12,
            ),
    {
        let size: i128 = if self.semitones < 0 {
            -(self.semitones as i128)
        } else {
            self.semitones as i128
        };
        let within = size % 12;
        let octaves = size / 12;
        let specifier = if within == 0 || within == 5 || within == 7 {
            Specifier::Perfect
        } else if within == 1 || within == 3 || within == 8 || within == 10 {
            Specifier::Minor
        } else if within == 6 {
            Specifier::Diminished
        } else {
            Specifier::Major
        };
        let simple: i128 = if within == 0 {
            1
        } else if within <= 2 {
            2
        } else if within <= 4 {
            3
        } else if within == 5 {
            4
        } else if within <= 7 {
            5
        } else if within <= 9 {
            6
        } else {
            7
        };
        let mut generic: i128 = simple + octaves * 7;
        if self.semitones < 0 {
            generic = -generic;
        }
        let generic = match GenericInterval::from_int(generic as IntegerType) {
            Ok(g) => g,
            Err(_) => GenericInterval::unison(),
        };
        DiatonicInterval::new(specifier, &generic)
    }

    /// The same interval the other way; the least number of all has no
    /// opposite.
    pub fn reverse(&self) -> (r: ExceptionResult<ChromaticInterval>)
        ensures
            r is Ok <==> self.semitones > IntegerType::MIN,
            r is Ok ==> r->Ok_0.semitones == -self.semitones,
            r is Err ==> r->Err_0 is Interval,
    {
        if self.semitones == IntegerType::MIN {
            Err(Exception::Interval(String::from_str("Interval is out of range")))
        } else {
            Ok(ChromaticInterval { semitones: -self.semitones })
        }
    }

    /// The pitch this many semitones from `p`, in its simplest spelling; with
    /// an octave only where `p` has one.
    pub open spec fn transpose_pitch_spec(&self, p: Pitch) -> Pitch {
        let moved = Pitch::from_ps_spec(p.ps_spec() + self.semitones * SEMITONE);
        if p.octave is None {
            Pitch { octave: None, ..moved }
        } else {
            moved
        }
    }

    /// The pitch this many semitones from `p`, in its simplest spelling; with
    /// an octave only where `p` has one. A pitch beyond the octaves that a
    /// pitch can hold is an error.
    pub fn transpose_pitch(&self, p: &Pitch) -> (r: ExceptionResult<Pitch>)
        ensures
            r is Ok <==> Pitch::ps_representable(p.ps_spec() + self.semitones * SEMITONE),
            r is Ok ==> r->Ok_0 == self.transpose_pitch_spec(*p),
            r is Err ==> r->Err_0 is Pitch,
    {
        let shift: i128 = (self.semitones as i128) * (SEMITONE as i128);
        let mut moved = match Pitch::from_ps(p.ps() + shift) {
            Ok(moved) => moved,
            Err(e) => {
                return Err(e);
            },
        };
        if p.octave.is_none() {
            moved.octave = None;
        }
        Ok(moved)
    }
}

} // verus!
