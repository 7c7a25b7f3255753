pub mod keysignature;

use crate::common::math::{floor_div, floor_mod};
use crate::defaults::IntegerType;
use crate::exception::{Exception, ExceptionResult};
use crate::pitch::accidental::{Accidental, AccidentalEnum};
use crate::pitch::Pitch;
use crate::stepname::StepName;
use vstd::prelude::*;
use vstd::string::*;

verus! {

#[derive(Debug, PartialEq, Eq, Clone, Copy, Structural)]
pub enum Mode {
    Major,
    Minor,
}

/// A key: a key signature taken in a mode.
#[derive(Debug, PartialEq, Eq, Clone, Copy, Structural)]
pub struct Key {
    pub sharps: IntegerType,
    pub mode: Mode,
}

/// The step at a place of the line of fifths that starts at F.
pub open spec fn step_on_fifths(place: int) -> StepName {
    if place == 0 {
        StepName::F
    } else if place == 1 {
        StepName::C
    } else if place == 2 {
        StepName::G
    } else if place == 3 {
        StepName::D
    } else if place == 4 {
        StepName::A
    } else if place == 5 {
        StepName::E
    } else {
        StepName::B
    }
}

/// How many fifths above C the tonic of a key lies: as many as the key has
/// sharps, and three more in minor.
pub open spec fn tonic_fifths(sharps: int, mode: Mode) -> int {
    match mode {
        Mode::Major => sharps,
        Mode::Minor => sharps + 3,
    }
}

/// The pitch without octave that lies a number of fifths above C, where an
/// accidental of at most four semitones names it.
pub open spec fn pitch_on_fifths(fifths: int) -> Option<Pitch> {
    let semitones = (fifths + 1) / 7;
    if -4 <= semitones <= 4 {
        Some(
            Pitch {
                step: step_on_fifths((fifths + 1) % 7),
                octave: None,
                accidental: Accidental {
                    kind: AccidentalEnum::from_alter_spec(semitones * 1_000_000)->Some_0,
                },
                microtone: None,
                spelling_is_inferred: false,
            },
        )
    } else {
        None
    }
}

impl Key {
    /// The tonic of the key, where there is one.
    pub open spec fn tonic_spec(&self) -> Option<Pitch> {
        pitch_on_fifths(tonic_fifths(self.sharps as int, self.mode))
    }

    /// The tonic of the key, without an octave. A key with so many sharps or
    /// flats that no accidental names its tonic has none.
    pub fn tonic(&self) -> (r: ExceptionResult<Pitch>)
        ensures
            r is Ok <==> self.tonic_spec() is Some,
            r is Ok ==> Some(r->Ok_0) == self.tonic_spec(),
            r is Err ==> r->Err_0 is Accidental,
    {
        let fifths: i128 = match self.mode {
            Mode::Major => self.sharps as i128,
            Mode::Minor => self.sharps as i128 + 3,
        };
        let semitones = floor_div(fifths + 1, 7);
        let place = floor_mod(fifths + 1, 7);
        if semitones < -4 || semitones > 4 {
            return Err(
                Exception::Accidental(
                    String::from_str("no accidental names the tonic of a key with so many sharps or flats"),
                ),
            );
        }
        let step = if place == 0 {
            StepName::F
        } else if place == 1 {
            StepName::C
        } else if place == 2 {
            StepName::G
        } else if place == 3 {
            StepName::D
        } else if place == 4 {
            StepName::A
        } else if place == 5 {
            StepName::E
        } else {
            StepName::B
        };
        let accidental = match Accidental::from_int(semitones as i8) {
            Ok(accidental) => accidental,
            Err(e) => {
                return Err(e);
            },
        };
        let p = Pitch { step, octave: None, accidental, microtone: None, spelling_is_inferred: false };
        assert(Some(p) == self.tonic_spec());
        Ok(p)
    }
}

} // verus!
