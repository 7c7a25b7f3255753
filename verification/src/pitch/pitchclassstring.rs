use crate::defaults::IntegerType;
use crate::exception::{Exception, ExceptionResult};
use crate::common::stringtools::char_text;
use vstd::prelude::*;
use vstd::string::*;

verus! {

/// The letters that stand for the pitch classes ten and eleven.
#[allow(non_camel_case_types)]
#[derive(Debug, PartialEq, Eq, Clone, Copy, Structural)]
pub enum PitchClassString {
    a,
    A,
    t,
    T,
    b,
    B,
    e,
    E,
}

impl PitchClassString {
    pub open spec fn as_char_spec(&self) -> char {
        match self {
            PitchClassString::a => 'a',
            PitchClassString::A => 'A',
            PitchClassString::t => 't',
            PitchClassString::T => 'T',
            PitchClassString::b => 'b',
            PitchClassString::B => 'B',
            PitchClassString::e => 'e',
            PitchClassString::E => 'E',
        }
    }

    /// The letter that a character is, if it is one of them.
    pub open spec fn of_char(c: char) -> Option<PitchClassString> {
        if c == 'a' {
            Some(PitchClassString::a)
        } else if c == 'A' {
            Some(PitchClassString::A)
        } else if c == 't' {
            Some(PitchClassString::t)
        } else if c == 'T' {
            Some(PitchClassString::T)
        } else if c == 'b' {
            Some(PitchClassString::b)
        } else if c == 'B' {
            Some(PitchClassString::B)
        } else if c == 'e' {
            Some(PitchClassString::e)
        } else if c == 'E' {
            Some(PitchClassString::E)
        } else {
            None
        }
    }

    /// The pitch class that the letter stands for: ten for a and t, eleven
    /// for b and e.
    pub open spec fn number_spec(&self) -> int {
        match self {
            PitchClassString::a | PitchClassString::A | PitchClassString::t | PitchClassString::T => 10,
            PitchClassString::b | PitchClassString::B | PitchClassString::e | PitchClassString::E => 11,
        }
    }

    pub fn as_char(&self) -> (c: char)
        ensures
            c == self.as_char_spec(),
            PitchClassString::of_char(c) == Some(*self),
    {
        match self {
            PitchClassString::a => 'a',
            PitchClassString::A => 'A',
            PitchClassString::t => 't',
            PitchClassString::T => 'T',
            PitchClassString::b => 'b',
            PitchClassString::B => 'B',
            PitchClassString::e => 'e',
            PitchClassString::E => 'E',
        }
    }

    /// The same letter as a capital.
    pub fn to_uppercase(self) -> (upper: Self)
        ensures
            upper.number_spec() == self.number_spec(),
            upper == match self {
                PitchClassString::a | PitchClassString::A => PitchClassString::A,
                PitchClassString::t | PitchClassString::T => PitchClassString::T,
                PitchClassString::b | PitchClassString::B => PitchClassString::B,
                PitchClassString::e | PitchClassString::E => PitchClassString::E,
            },
    {
        match self {
            PitchClassString::a | PitchClassString::A => PitchClassString::A,
            PitchClassString::t | PitchClassString::T => PitchClassString::T,
            PitchClassString::b | PitchClassString::B => PitchClassString::B,
            PitchClassString::e | PitchClassString::E => PitchClassString::E,
        }
    }

    /// The same letter in lower case.
    pub fn to_lowercase(self) -> (lower: Self)
        ensures
            lower.number_spec() == self.number_spec(),
            lower == match self {
                PitchClassString::a | PitchClassString::A => PitchClassString::a,
                PitchClassString::t | PitchClassString::T => PitchClassString::t,
                PitchClassString::b | PitchClassString::B => PitchClassString::b,
                PitchClassString::e | PitchClassString::E => PitchClassString::e,
            },
    {
        match self {
            PitchClassString::a | PitchClassString::A => PitchClassString::a,
            PitchClassString::t | PitchClassString::T => PitchClassString::t,
            PitchClassString::b | PitchClassString::B => PitchClassString::b,
            PitchClassString::e | PitchClassString::E => PitchClassString::e,
        }
    }

    /// The pitch class that the letter stands for.
    pub fn to_number(self) -> (n: IntegerType)
        ensures
            n == self.number_spec(),
    {
        match self {
            PitchClassString::a | PitchClassString::A | PitchClassString::t | PitchClassString::T => 10,
            PitchClassString::b | PitchClassString::B | PitchClassString::e | PitchClassString::E => 11,
        }
    }

    /// The letter that a character is; any other character is an error.
    pub fn from_char(c: char) -> (r: ExceptionResult<Self>)
        ensures
            r is Ok <==> PitchClassString::of_char(c) is Some,
            r is Ok ==> Some(r->Ok_0) == PitchClassString::of_char(c),
            r is Err ==> r->Err_0 is PitchClassString && r->Err_0.message_spec()
                == "Invalid pitch class: "@ + seq![c],
    {
        if c == 'a' {
            Ok(PitchClassString::a)
        } else if c == 'A' {
            Ok(PitchClassString::A)
        } else if c == 't' {
            Ok(PitchClassString::t)
        } else if c == 'T' {
            Ok(PitchClassString::T)
        } else if c == 'b' {
            Ok(PitchClassString::b)
        } else if c == 'B' {
            Ok(PitchClassString::B)
        } else if c == 'e' {
            Ok(PitchClassString::e)
        } else if c == 'E' {
            Ok(PitchClassString::E)
        } else {
            Err(
                Exception::PitchClassString(
                    String::from_str("Invalid pitch class: ").concat(char_text(c).as_str()),
                ),
            )
        }
    }
}

impl TryFrom<char> for PitchClassString {
    type Error = Exception;

    fn try_from(c: char) -> (r: Result<Self, Exception>)
        ensures
            r is Ok <==> PitchClassString::of_char(c) is Some,
            r is Ok ==> Some(r->Ok_0) == PitchClassString::of_char(c),
            r is Err ==> r->Err_0 is PitchClassString,
    {
        PitchClassString::from_char(c)
    }
}

/// An error carries its message as a text, which a specification cannot
/// build: the conversion is specified by the `ensures` of `try_from` alone.
impl vstd::std_specs::convert::TryFromSpecImpl<char> for PitchClassString {
    open spec fn obeys_try_from_spec() -> bool {
        false
    }

    open spec fn try_from_spec(v: char) -> Result<Self, Exception> {
        arbitrary()
    }
}

} // verus!
