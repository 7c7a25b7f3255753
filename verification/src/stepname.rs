use crate::defaults::IntegerType;
use crate::exception::{Exception, ExceptionResult};
use crate::common::stringtools::{
    char_text, decimal_of, decimal_text, signed_decimal_of, signed_decimal_text,
};
use vstd::prelude::*;
use vstd::string::*;

verus! {

/// One of the seven letter names of the staff.
#[derive(Debug, PartialEq, Eq, Clone, Copy, Structural)]
pub enum StepName {
    C,
    D,
    E,
    F,
    G,
    A,
    B,
}

pub type StepType = IntegerType;

impl StepName {
    /// The step's place in the octave that starts at C, counted from 0.
    pub open spec fn index(&self) -> int {
        match self {
            StepName::C => 0,
            StepName::D => 1,
            StepName::E => 2,
            StepName::F => 3,
            StepName::G => 4,
            StepName::A => 5,
            StepName::B => 6,
        }
    }

    /// The step at a place of the octave that starts at C.
    pub open spec fn at(i: int) -> StepName {
        if i == 0 {
            StepName::C
        } else if i == 1 {
            StepName::D
        } else if i == 2 {
            StepName::E
        } else if i == 3 {
            StepName::F
        } else if i == 4 {
            StepName::G
        } else if i == 5 {
            StepName::A
        } else {
            StepName::B
        }
    }

    /// Semitones from C up to the natural note of this step.
    pub open spec fn ref_spec(&self) -> int {
        match self {
            StepName::C => 0,
            StepName::D => 2,
            StepName::E => 4,
            StepName::F => 5,
            StepName::G => 7,
            StepName::A => 9,
            StepName::B => 11,
        }
    }

    /// The step's upper-case letter.
    pub open spec fn letter_spec(&self) -> char {
        match self {
            StepName::C => 'C',
            StepName::D => 'D',
            StepName::E => 'E',
            StepName::F => 'F',
            StepName::G => 'G',
            StepName::A => 'A',
            StepName::B => 'B',
        }
    }

    /// The step for a place counted from 0 at C; other numbers name no step.
    pub fn dnn_offset_to_step(n: StepType) -> (r: ExceptionResult<Self>)
        ensures
            0 <= n <= 6 <==> r is Ok,
            r is Ok ==> r->Ok_0 == StepName::at(n as int),
            r is Err ==> r->Err_0 is StepName && r->Err_0.message_spec()
                == "dnn offset doesn't match step: "@ + signed_decimal_of(n as int),
    {
        if 0 <= n && n <= 6 {
            Ok(StepName::from_index(n))
        } else {
            Err(
                Exception::StepName(
                    String::from_str("dnn offset doesn't match step: ").concat(
                        signed_decimal_text(n).as_str(),
                    ),
                ),
            )
        }
    }

    /// The step at a place of the octave that starts at C.
    pub fn from_index(i: StepType) -> (s: Self)
        requires
            0 <= i <= 6,
        ensures
            s == StepName::at(i as int),
            s.index() == i,
    {
        if i == 0 {
            StepName::C
        } else if i == 1 {
            StepName::D
        } else if i == 2 {
            StepName::E
        } else if i == 3 {
            StepName::F
        } else if i == 4 {
            StepName::G
        } else if i == 5 {
            StepName::A
        } else {
            StepName::B
        }
    }

    /// The step's number on the staff within its octave, from 1 at C to 7 at B.
    pub fn step_to_dnn_offset(&self) -> (n: StepType)
        ensures
            n == self.index() + 1,
    {
        match self {
            StepName::C => 1,
            StepName::D => 2,
            StepName::E => 3,
            StepName::F => 4,
            StepName::G => 5,
            StepName::A => 6,
            StepName::B => 7,
        }
    }

    /// Semitones from C up to the natural note of this step.
    pub fn step_ref(&self) -> (n: StepType)
        ensures
            n == self.ref_spec(),
    {
        match self {
            StepName::C => 0,
            StepName::D => 2,
            StepName::E => 4,
            StepName::F => 5,
            StepName::G => 7,
            StepName::A => 9,
            StepName::B => 11,
        }
    }

    /// The step whose natural note lies `n` semitones above C, if there is one.
    pub fn ref_to_step(n: StepType) -> (r: ExceptionResult<Self>)
        ensures
            r is Ok <==> exists|s: StepName| s.ref_spec() == n,
            r is Ok ==> r->Ok_0.ref_spec() == n,
            r is Err ==> r->Err_0 is StepName && r->Err_0.message_spec()
                == "ref doesn't match any step: "@ + signed_decimal_of(n as int),
    {
        if n == 0 {
            assert(StepName::C.ref_spec() == n);
            Ok(StepName::C)
        } else if n == 2 {
            assert(StepName::D.ref_spec() == n);
            Ok(StepName::D)
        } else if n == 4 {
            assert(StepName::E.ref_spec() == n);
            Ok(StepName::E)
        } else if n == 5 {
            assert(StepName::F.ref_spec() == n);
            Ok(StepName::F)
        } else if n == 7 {
            assert(StepName::G.ref_spec() == n);
            Ok(StepName::G)
        } else if n == 9 {
            assert(StepName::A.ref_spec() == n);
            Ok(StepName::A)
        } else if n == 11 {
            assert(StepName::B.ref_spec() == n);
            Ok(StepName::B)
        } else {
            Err(
                Exception::StepName(
                    String::from_str("ref doesn't match any step: ").concat(signed_decimal_text(n).as_str()),
                ),
            )
        }
    }

    /// The step numbered `value` on the staff within its octave, 1 at C to 7 at B.
    pub fn from_u8(value: u8) -> (r: ExceptionResult<Self>)
        ensures
            1 <= value <= 7 <==> r is Ok,
            r is Ok ==> r->Ok_0 == StepName::at(value - 1),
            r is Err ==> r->Err_0 is StepName && r->Err_0.message_spec()
                == "Invalid value for StepName: "@ + decimal_of(value as nat),
    {
        if 1 <= value && value <= 7 {
            Ok(StepName::from_index((value - 1) as StepType))
        } else {
            Err(
                Exception::StepName(
                    String::from_str("Invalid value for StepName: ").concat(
                        decimal_text(value as u64).as_str(),
                    ),
                ),
            )
        }
    }

    /// The step that a letter names, in either case.
    pub open spec fn of_letter(c: char) -> Option<StepName> {
        if c == 'A' || c == 'a' {
            Some(StepName::A)
        } else if c == 'B' || c == 'b' {
            Some(StepName::B)
        } else if c == 'C' || c == 'c' {
            Some(StepName::C)
        } else if c == 'D' || c == 'd' {
            Some(StepName::D)
        } else if c == 'E' || c == 'e' {
            Some(StepName::E)
        } else if c == 'F' || c == 'f' {
            Some(StepName::F)
        } else if c == 'G' || c == 'g' {
            Some(StepName::G)
        } else {
            None
        }
    }

    /// The step that a letter names, in either case; other characters name none.
    pub fn from_char(value: char) -> (r: ExceptionResult<Self>)
        ensures
            r is Ok <==> StepName::of_letter(value) is Some,
            r is Ok ==> Some(r->Ok_0) == StepName::of_letter(value),
            r is Err ==> r->Err_0 is StepName && r->Err_0.message_spec()
                == "cannot make StepName out of "@ + seq![value],
    {
        if value == 'A' || value == 'a' {
            Ok(StepName::A)
        } else if value == 'B' || value == 'b' {
            Ok(StepName::B)
        } else if value == 'C' || value == 'c' {
            Ok(StepName::C)
        } else if value == 'D' || value == 'd' {
            Ok(StepName::D)
        } else if value == 'E' || value == 'e' {
            Ok(StepName::E)
        } else if value == 'F' || value == 'f' {
            Ok(StepName::F)
        } else if value == 'G' || value == 'g' {
            Ok(StepName::G)
        } else {
            Err(
                Exception::StepName(
                    String::from_str("cannot make StepName out of ").concat(
                        char_text(value).as_str(),
                    ),
                ),
            )
        }
    }

    /// The step's upper-case letter.
    pub fn letter(&self) -> (c: char)
        ensures
            c == self.letter_spec(),
    {
        match self {
            StepName::C => 'C',
            StepName::D => 'D',
            StepName::E => 'E',
            StepName::F => 'F',
            StepName::G => 'G',
            StepName::A => 'A',
            StepName::B => 'B',
        }
    }
}

impl TryFrom<u8> for StepName {
    type Error = Exception;

    fn try_from(value: u8) -> (r: ExceptionResult<Self>)
        ensures
            1 <= value <= 7 <==> r is Ok,
            r is Ok ==> r->Ok_0 == StepName::at(value - 1),
            r is Err ==> r->Err_0 is StepName,
    {
        StepName::from_u8(value)
    }
}

/// An error carries its message as a text, which a specification cannot
/// build: the conversion is specified by the `ensures` of `try_from` alone.
impl vstd::std_specs::convert::TryFromSpecImpl<u8> for StepName {
    open spec fn obeys_try_from_spec() -> bool {
        false
    }

    open spec fn try_from_spec(v: u8) -> Result<Self, Exception> {
        arbitrary()
    }
}

impl TryFrom<char> for StepName {
    type Error = Exception;

    fn try_from(value: char) -> (r: ExceptionResult<Self>)
        ensures
            r is Ok <==> StepName::of_letter(value) is Some,
            r is Ok ==> Some(r->Ok_0) == StepName::of_letter(value),
            r is Err ==> r->Err_0 is StepName,
    {
        StepName::from_char(value)
    }
}

impl vstd::std_specs::convert::TryFromSpecImpl<char> for StepName {
    open spec fn obeys_try_from_spec() -> bool {
        false
    }

    open spec fn try_from_spec(v: char) -> Result<Self, Exception> {
        arbitrary()
    }
}

} // verus!
