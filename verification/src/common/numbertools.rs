use crate::common::stringtools::{
    decimal_of, decimal_text, lowercase_of, str_eq, to_lowercase,
};
use crate::defaults::UnsignedIntegerType;
use crate::exception::{Exception, ExceptionResult};
use vstd::prelude::*;
use vstd::string::*;

verus! {

/// The ordinals from zeroth to twenty-second.
#[derive(Debug, Copy, Clone, PartialEq, Eq, Structural)]
pub enum Ordinal {
    Zeroth,
    First,
    Second,
    Third,
    Fourth,
    Fifth,
    Sixth,
    Seventh,
    Eighth,
    Ninth,
    Tenth,
    Eleventh,
    Twelfth,
    Thirteenth,
    Fourteenth,
    Fifteenth,
    Sixteenth,
    Seventeenth,
    Eighteenth,
    Nineteenth,
    Twentieth,
    TwentyFirst,
    TwentySecond,
}

impl Ordinal {
    /// The ordinal's place, from 0.
    pub open spec fn index(&self) -> int {
        match self {
            Ordinal::Zeroth => 0,
            Ordinal::First => 1,
            Ordinal::Second => 2,
            Ordinal::Third => 3,
            Ordinal::Fourth => 4,
            Ordinal::Fifth => 5,
            Ordinal::Sixth => 6,
            Ordinal::Seventh => 7,
            Ordinal::Eighth => 8,
            Ordinal::Ninth => 9,
            Ordinal::Tenth => 10,
            Ordinal::Eleventh => 11,
            Ordinal::Twelfth => 12,
            Ordinal::Thirteenth => 13,
            Ordinal::Fourteenth => 14,
            Ordinal::Fifteenth => 15,
            Ordinal::Sixteenth => 16,
            Ordinal::Seventeenth => 17,
            Ordinal::Eighteenth => 18,
            Ordinal::Nineteenth => 19,
            Ordinal::Twentieth => 20,
            Ordinal::TwentyFirst => 21,
            Ordinal::TwentySecond => 22,
        }
    }

    /// The ordinal at a place; beyond the last place, the last.
    pub open spec fn at(place: int) -> Ordinal {
        if place == 0 {
            Ordinal::Zeroth
        } else if place == 1 {
            Ordinal::First
        } else if place == 2 {
            Ordinal::Second
        } else if place == 3 {
            Ordinal::Third
        } else if place == 4 {
            Ordinal::Fourth
        } else if place == 5 {
            Ordinal::Fifth
        } else if place == 6 {
            Ordinal::Sixth
        } else if place == 7 {
            Ordinal::Seventh
        } else if place == 8 {
            Ordinal::Eighth
        } else if place == 9 {
            Ordinal::Ninth
        } else if place == 10 {
            Ordinal::Tenth
        } else if place == 11 {
            Ordinal::Eleventh
        } else if place == 12 {
            Ordinal::Twelfth
        } else if place == 13 {
            Ordinal::Thirteenth
        } else if place == 14 {
            Ordinal::Fourteenth
        } else if place == 15 {
            Ordinal::Fifteenth
        } else if place == 16 {
            Ordinal::Sixteenth
        } else if place == 17 {
            Ordinal::Seventeenth
        } else if place == 18 {
            Ordinal::Eighteenth
        } else if place == 19 {
            Ordinal::Nineteenth
        } else if place == 20 {
            Ordinal::Twentieth
        } else if place == 21 {
            Ordinal::TwentyFirst
        } else {
            Ordinal::TwentySecond
        }
    }

    /// The ordinal's name, with a capital.
    pub open spec fn name_spec(&self) -> Seq<char> {
        match self {
            Ordinal::Zeroth => "Zeroth"@,
            Ordinal::First => "First"@,
            Ordinal::Second => "Second"@,
            Ordinal::Third => "Third"@,
            Ordinal::Fourth => "Fourth"@,
            Ordinal::Fifth => "Fifth"@,
            Ordinal::Sixth => "Sixth"@,
            Ordinal::Seventh => "Seventh"@,
            Ordinal::Eighth => "Eighth"@,
            Ordinal::Ninth => "Ninth"@,
            Ordinal::Tenth => "Tenth"@,
            Ordinal::Eleventh => "Eleventh"@,
            Ordinal::Twelfth => "Twelfth"@,
            Ordinal::Thirteenth => "Thirteenth"@,
            Ordinal::Fourteenth => "Fourteenth"@,
            Ordinal::Fifteenth => "Fifteenth"@,
            Ordinal::Sixteenth => "Sixteenth"@,
            Ordinal::Seventeenth => "Seventeenth"@,
            Ordinal::Eighteenth => "Eighteenth"@,
            Ordinal::Nineteenth => "Nineteenth"@,
            Ordinal::Twentieth => "Twentieth"@,
            Ordinal::TwentyFirst => "Twenty-first"@,
            Ordinal::TwentySecond => "Twenty-second"@,
        }
    }

    /// The ordinal's name in lower case.
    pub open spec fn lower_spec(&self) -> Seq<char> {
        match self {
            Ordinal::Zeroth => "zeroth"@,
            Ordinal::First => "first"@,
            Ordinal::Second => "second"@,
            Ordinal::Third => "third"@,
            Ordinal::Fourth => "fourth"@,
            Ordinal::Fifth => "fifth"@,
            Ordinal::Sixth => "sixth"@,
            Ordinal::Seventh => "seventh"@,
            Ordinal::Eighth => "eighth"@,
            Ordinal::Ninth => "ninth"@,
            Ordinal::Tenth => "tenth"@,
            Ordinal::Eleventh => "eleventh"@,
            Ordinal::Twelfth => "twelfth"@,
            Ordinal::Thirteenth => "thirteenth"@,
            Ordinal::Fourteenth => "fourteenth"@,
            Ordinal::Fifteenth => "fifteenth"@,
            Ordinal::Sixteenth => "sixteenth"@,
            Ordinal::Seventeenth => "seventeenth"@,
            Ordinal::Eighteenth => "eighteenth"@,
            Ordinal::Nineteenth => "nineteenth"@,
            Ordinal::Twentieth => "twentieth"@,
            Ordinal::TwentyFirst => "twenty-first"@,
            Ordinal::TwentySecond => "twenty-second"@,
        }
    }

    /// The ordinal that a name in lower case names.
    pub open spec fn from_lower_spec(s: Seq<char>) -> Option<Ordinal> {
        if s == "zeroth"@ {
            Some(Ordinal::Zeroth)
        } else if s == "first"@ {
            Some(Ordinal::First)
        } else if s == "second"@ {
            Some(Ordinal::Second)
        } else if s == "third"@ {
            Some(Ordinal::Third)
        } else if s == "fourth"@ {
            Some(Ordinal::Fourth)
        } else if s == "fifth"@ {
            Some(Ordinal::Fifth)
        } else if s == "sixth"@ {
            Some(Ordinal::Sixth)
        } else if s == "seventh"@ {
            Some(Ordinal::Seventh)
        } else if s == "eighth"@ {
            Some(Ordinal::Eighth)
        } else if s == "ninth"@ {
            Some(Ordinal::Ninth)
        } else if s == "tenth"@ {
            Some(Ordinal::Tenth)
        } else if s == "eleventh"@ {
            Some(Ordinal::Eleventh)
        } else if s == "twelfth"@ {
            Some(Ordinal::Twelfth)
        } else if s == "thirteenth"@ {
            Some(Ordinal::Thirteenth)
        } else if s == "fourteenth"@ {
            Some(Ordinal::Fourteenth)
        } else if s == "fifteenth"@ {
            Some(Ordinal::Fifteenth)
        } else if s == "sixteenth"@ {
            Some(Ordinal::Sixteenth)
        } else if s == "seventeenth"@ {
            Some(Ordinal::Seventeenth)
        } else if s == "eighteenth"@ {
            Some(Ordinal::Eighteenth)
        } else if s == "nineteenth"@ {
            Some(Ordinal::Nineteenth)
        } else if s == "twentieth"@ {
            Some(Ordinal::Twentieth)
        } else if s == "twenty-first"@ {
            Some(Ordinal::TwentyFirst)
        } else if s == "twenty-second"@ {
            Some(Ordinal::TwentySecond)
        } else {
            None
        }
    }

    /// The ordinal at a place, from 0 to 22.
    pub fn from_index(value: UnsignedIntegerType) -> (r: ExceptionResult<Ordinal>)
        ensures
            r is Ok <==> value <= 22,
            r is Ok ==> r->Ok_0 == Ordinal::at(value as int) && r->Ok_0.index() == value,
            r is Err ==> r->Err_0 is Ordinal && r->Err_0.message_spec() == "Invalid Ordinal value: "@
                + decimal_of(value as nat),
    {
        if value == 0 {
            Ok(Ordinal::Zeroth)
        } else if value == 1 {
            Ok(Ordinal::First)
        } else if value == 2 {
            Ok(Ordinal::Second)
        } else if value == 3 {
            Ok(Ordinal::Third)
        } else if value == 4 {
            Ok(Ordinal::Fourth)
        } else if value == 5 {
            Ok(Ordinal::Fifth)
        } else if value == 6 {
            Ok(Ordinal::Sixth)
        } else if value == 7 {
            Ok(Ordinal::Seventh)
        } else if value == 8 {
            Ok(Ordinal::Eighth)
        } else if value == 9 {
            Ok(Ordinal::Ninth)
        } else if value == 10 {
            Ok(Ordinal::Tenth)
        } else if value == 11 {
            Ok(Ordinal::Eleventh)
        } else if value == 12 {
            Ok(Ordinal::Twelfth)
        } else if value == 13 {
            Ok(Ordinal::Thirteenth)
        } else if value == 14 {
            Ok(Ordinal::Fourteenth)
        } else if value == 15 {
            Ok(Ordinal::Fifteenth)
        } else if value == 16 {
            Ok(Ordinal::Sixteenth)
        } else if value == 17 {
            Ok(Ordinal::Seventeenth)
        } else if value == 18 {
            Ok(Ordinal::Eighteenth)
        } else if value == 19 {
            Ok(Ordinal::Nineteenth)
        } else if value == 20 {
            Ok(Ordinal::Twentieth)
        } else if value == 21 {
            Ok(Ordinal::TwentyFirst)
        } else if value == 22 {
            Ok(Ordinal::TwentySecond)
        } else {
            Err(
                Exception::Ordinal(
                    String::from_str("Invalid Ordinal value: ").concat(decimal_text(value).as_str()),
                ),
            )
        }
    }

    /// The ordinal that a name in lower case names; `given` is the name as
    /// it was given, for the error's message.
    pub fn from_lowercase(lower: &str, given: &str) -> (r: ExceptionResult<Ordinal>)
        ensures
            r is Ok <==> Ordinal::from_lower_spec(lower@) is Some,
            r is Ok ==> Some(r->Ok_0) == Ordinal::from_lower_spec(lower@),
            r is Err ==> r->Err_0 is Ordinal && r->Err_0.message_spec() == "Invalid Ordinal string: "@
                + given@,
    {
        if str_eq(lower, "zeroth") {
            Ok(Ordinal::Zeroth)
        } else if str_eq(lower, "first") {
            Ok(Ordinal::First)
        } else if str_eq(lower, "second") {
            Ok(Ordinal::Second)
        } else if str_eq(lower, "third") {
            Ok(Ordinal::Third)
        } else if str_eq(lower, "fourth") {
            Ok(Ordinal::Fourth)
        } else if str_eq(lower, "fifth") {
            Ok(Ordinal::Fifth)
        } else if str_eq(lower, "sixth") {
            Ok(Ordinal::Sixth)
        } else if str_eq(lower, "seventh") {
            Ok(Ordinal::Seventh)
        } else if str_eq(lower, "eighth") {
            Ok(Ordinal::Eighth)
        } else if str_eq(lower, "ninth") {
            Ok(Ordinal::Ninth)
        } else if str_eq(lower, "tenth") {
            Ok(Ordinal::Tenth)
        } else if str_eq(lower, "eleventh") {
            Ok(Ordinal::Eleventh)
        } else if str_eq(lower, "twelfth") {
            Ok(Ordinal::Twelfth)
        } else if str_eq(lower, "thirteenth") {
            Ok(Ordinal::Thirteenth)
        } else if str_eq(lower, "fourteenth") {
            Ok(Ordinal::Fourteenth)
        } else if str_eq(lower, "fifteenth") {
            Ok(Ordinal::Fifteenth)
        } else if str_eq(lower, "sixteenth") {
            Ok(Ordinal::Sixteenth)
        } else if str_eq(lower, "seventeenth") {
            Ok(Ordinal::Seventeenth)
        } else if str_eq(lower, "eighteenth") {
            Ok(Ordinal::Eighteenth)
        } else if str_eq(lower, "nineteenth") {
            Ok(Ordinal::Nineteenth)
        } else if str_eq(lower, "twentieth") {
            Ok(Ordinal::Twentieth)
        } else if str_eq(lower, "twenty-first") {
            Ok(Ordinal::TwentyFirst)
        } else if str_eq(lower, "twenty-second") {
            Ok(Ordinal::TwentySecond)
        } else {
            Err(Exception::Ordinal(String::from_str("Invalid Ordinal string: ").concat(given)))
        }
    }

    /// The ordinal that a name names, whatever its case.
    pub fn from_name(value: &str) -> (r: ExceptionResult<Ordinal>)
        ensures
            r is Ok <==> Ordinal::from_lower_spec(lowercase_of(value@)) is Some,
            r is Ok ==> Some(r->Ok_0) == Ordinal::from_lower_spec(lowercase_of(value@)),
            r is Err ==> r->Err_0 is Ordinal,
    {
        let lower = to_lowercase(value);
        Ordinal::from_lowercase(lower.as_str(), value)
    }

    /// The ordinal's name, with a capital.
    pub fn name(&self) -> (text: &'static str)
        ensures
            text@ == self.name_spec(),
    {
        match self {
            Ordinal::Zeroth => "Zeroth",
            Ordinal::First => "First",
            Ordinal::Second => "Second",
            Ordinal::Third => "Third",
            Ordinal::Fourth => "Fourth",
            Ordinal::Fifth => "Fifth",
            Ordinal::Sixth => "Sixth",
            Ordinal::Seventh => "Seventh",
            Ordinal::Eighth => "Eighth",
            Ordinal::Ninth => "Ninth",
            Ordinal::Tenth => "Tenth",
            Ordinal::Eleventh => "Eleventh",
            Ordinal::Twelfth => "Twelfth",
            Ordinal::Thirteenth => "Thirteenth",
            Ordinal::Fourteenth => "Fourteenth",
            Ordinal::Fifteenth => "Fifteenth",
            Ordinal::Sixteenth => "Sixteenth",
            Ordinal::Seventeenth => "Seventeenth",
            Ordinal::Eighteenth => "Eighteenth",
            Ordinal::Nineteenth => "Nineteenth",
            Ordinal::Twentieth => "Twentieth",
            Ordinal::TwentyFirst => "Twenty-first",
            Ordinal::TwentySecond => "Twenty-second",
        }
    }
}

impl TryFrom<UnsignedIntegerType> for Ordinal {
    type Error = Exception;

    fn try_from(value: UnsignedIntegerType) -> (r: Result<Self, Exception>)
        ensures
            r is Ok <==> value <= 22,
            r is Ok ==> r->Ok_0.index() == value,
            r is Err ==> r->Err_0 is Ordinal,
    {
        Ordinal::from_index(value)
    }
}

/// An error carries its message as a text, which a specification cannot
/// build: the conversion is specified by the `ensures` of `try_from` alone.
impl vstd::std_specs::convert::TryFromSpecImpl<UnsignedIntegerType> for Ordinal {
    open spec fn obeys_try_from_spec() -> bool {
        false
    }

    open spec fn try_from_spec(v: UnsignedIntegerType) -> Result<Self, Exception> {
        arbitrary()
    }
}

impl<'a> TryFrom<&'a str> for Ordinal {
    type Error = Exception;

    fn try_from(value: &'a str) -> (r: Result<Self, Exception>)
        ensures
            r is Ok <==> Ordinal::from_lower_spec(lowercase_of(value@)) is Some,
            r is Ok ==> Some(r->Ok_0) == Ordinal::from_lower_spec(lowercase_of(value@)),
            r is Err ==> r->Err_0 is Ordinal,
    {
        Ordinal::from_name(value)
    }
}

impl<'a> vstd::std_specs::convert::TryFromSpecImpl<&'a str> for Ordinal {
    open spec fn obeys_try_from_spec() -> bool {
        false
    }

    open spec fn try_from_spec(v: &'a str) -> Result<Self, Exception> {
        arbitrary()
    }
}

/// The ordinals as music names them: unison for first, octave for eighth,
/// double octave for fifteenth, triple octave for twenty-second.
#[derive(Debug, Copy, Clone, PartialEq, Eq, Structural)]
pub enum MusicOrdinals {
    Zeroth,
    Unison,
    Second,
    Third,
    Fourth,
    Fifth,
    Sixth,
    Seventh,
    Octave,
    Ninth,
    Tenth,
    Eleventh,
    Twelfth,
    Thirteenth,
    Fourteenth,
    DoubleOctave,
    Sixteenth,
    Seventeenth,
    Eighteenth,
    Nineteenth,
    Twentieth,
    TwentyFirst,
    TripleOctave,
}

impl MusicOrdinals {
    /// The ordinal's place, from 0.
    pub open spec fn index(&self) -> int {
        match self {
            MusicOrdinals::Zeroth => 0,
            MusicOrdinals::Unison => 1,
            MusicOrdinals::Second => 2,
            MusicOrdinals::Third => 3,
            MusicOrdinals::Fourth => 4,
            MusicOrdinals::Fifth => 5,
            MusicOrdinals::Sixth => 6,
            MusicOrdinals::Seventh => 7,
            MusicOrdinals::Octave => 8,
            MusicOrdinals::Ninth => 9,
            MusicOrdinals::Tenth => 10,
            MusicOrdinals::Eleventh => 11,
            MusicOrdinals::Twelfth => 12,
            MusicOrdinals::Thirteenth => 13,
            MusicOrdinals::Fourteenth => 14,
            MusicOrdinals::DoubleOctave => 15,
            MusicOrdinals::Sixteenth => 16,
            MusicOrdinals::Seventeenth => 17,
            MusicOrdinals::Eighteenth => 18,
            MusicOrdinals::Nineteenth => 19,
            MusicOrdinals::Twentieth => 20,
            MusicOrdinals::TwentyFirst => 21,
            MusicOrdinals::TripleOctave => 22,
        }
    }

    /// The ordinal at a place; beyond the last place, the last.
    pub open spec fn at(place: int) -> MusicOrdinals {
        if place == 0 {
            MusicOrdinals::Zeroth
        } else if place == 1 {
            MusicOrdinals::Unison
        } else if place == 2 {
            MusicOrdinals::Second
        } else if place == 3 {
            MusicOrdinals::Third
        } else if place == 4 {
            MusicOrdinals::Fourth
        } else if place == 5 {
            MusicOrdinals::Fifth
        } else if place == 6 {
            MusicOrdinals::Sixth
        } else if place == 7 {
            MusicOrdinals::Seventh
        } else if place == 8 {
            MusicOrdinals::Octave
        } else if place == 9 {
            MusicOrdinals::Ninth
        } else if place == 10 {
            MusicOrdinals::Tenth
        } else if place == 11 {
            MusicOrdinals::Eleventh
        } else if place == 12 {
            MusicOrdinals::Twelfth
        } else if place == 13 {
            MusicOrdinals::Thirteenth
        } else if place == 14 {
            MusicOrdinals::Fourteenth
        } else if place == 15 {
            MusicOrdinals::DoubleOctave
        } else if place == 16 {
            MusicOrdinals::Sixteenth
        } else if place == 17 {
            MusicOrdinals::Seventeenth
        } else if place == 18 {
            MusicOrdinals::Eighteenth
        } else if place == 19 {
            MusicOrdinals::Nineteenth
        } else if place == 20 {
            MusicOrdinals::Twentieth
        } else if place == 21 {
            MusicOrdinals::TwentyFirst
        } else {
            MusicOrdinals::TripleOctave
        }
    }

    /// The ordinal's name, with a capital.
    pub open spec fn name_spec(&self) -> Seq<char> {
        match self {
            MusicOrdinals::Zeroth => "Zeroth"@,
            MusicOrdinals::Unison => "Unison"@,
            MusicOrdinals::Second => "Second"@,
            MusicOrdinals::Third => "Third"@,
            MusicOrdinals::Fourth => "Fourth"@,
            MusicOrdinals::Fifth => "Fifth"@,
            MusicOrdinals::Sixth => "Sixth"@,
            MusicOrdinals::Seventh => "Seventh"@,
            MusicOrdinals::Octave => "Octave"@,
            MusicOrdinals::Ninth => "Ninth"@,
            MusicOrdinals::Tenth => "Tenth"@,
            MusicOrdinals::Eleventh => "Eleventh"@,
            MusicOrdinals::Twelfth => "Twelfth"@,
            MusicOrdinals::Thirteenth => "Thirteenth"@,
            MusicOrdinals::Fourteenth => "Fourteenth"@,
            MusicOrdinals::DoubleOctave => "Double-octave"@,
            MusicOrdinals::Sixteenth => "Sixteenth"@,
            MusicOrdinals::Seventeenth => "Seventeenth"@,
            MusicOrdinals::Eighteenth => "Eighteenth"@,
            MusicOrdinals::Nineteenth => "Nineteenth"@,
            MusicOrdinals::Twentieth => "Twentieth"@,
            MusicOrdinals::TwentyFirst => "Twenty-first"@,
            MusicOrdinals::TripleOctave => "Triple-octave"@,
        }
    }

    /// The ordinal's name in lower case.
    pub open spec fn lower_spec(&self) -> Seq<char> {
        match self {
            MusicOrdinals::Zeroth => "zeroth"@,
            MusicOrdinals::Unison => "unison"@,
            MusicOrdinals::Second => "second"@,
            MusicOrdinals::Third => "third"@,
            MusicOrdinals::Fourth => "fourth"@,
            MusicOrdinals::Fifth => "fifth"@,
            MusicOrdinals::Sixth => "sixth"@,
            MusicOrdinals::Seventh => "seventh"@,
            MusicOrdinals::Octave => "octave"@,
            MusicOrdinals::Ninth => "ninth"@,
            MusicOrdinals::Tenth => "tenth"@,
            MusicOrdinals::Eleventh => "eleventh"@,
            MusicOrdinals::Twelfth => "twelfth"@,
            MusicOrdinals::Thirteenth => "thirteenth"@,
            MusicOrdinals::Fourteenth => "fourteenth"@,
            MusicOrdinals::DoubleOctave => "double-octave"@,
            MusicOrdinals::Sixteenth => "sixteenth"@,
            MusicOrdinals::Seventeenth => "seventeenth"@,
            MusicOrdinals::Eighteenth => "eighteenth"@,
            MusicOrdinals::Nineteenth => "nineteenth"@,
            MusicOrdinals::Twentieth => "twentieth"@,
            MusicOrdinals::TwentyFirst => "twenty-first"@,
            MusicOrdinals::TripleOctave => "triple-octave"@,
        }
    }

    /// The ordinal that a name in lower case names.
    pub open spec fn from_lower_spec(s: Seq<char>) -> Option<MusicOrdinals> {
        if s == "zeroth"@ {
            Some(MusicOrdinals::Zeroth)
        } else if s == "unison"@ {
            Some(MusicOrdinals::Unison)
        } else if s == "second"@ {
            Some(MusicOrdinals::Second)
        } else if s == "third"@ {
            Some(MusicOrdinals::Third)
        } else if s == "fourth"@ {
            Some(MusicOrdinals::Fourth)
        } else if s == "fifth"@ {
            Some(MusicOrdinals::Fifth)
        } else if s == "sixth"@ {
            Some(MusicOrdinals::Sixth)
        } else if s == "seventh"@ {
            Some(MusicOrdinals::Seventh)
        } else if s == "octave"@ {
            Some(MusicOrdinals::Octave)
        } else if s == "ninth"@ {
            Some(MusicOrdinals::Ninth)
        } else if s == "tenth"@ {
            Some(MusicOrdinals::Tenth)
        } else if s == "eleventh"@ {
            Some(MusicOrdinals::Eleventh)
        } else if s == "twelfth"@ {
            Some(MusicOrdinals::Twelfth)
        } else if s == "thirteenth"@ {
            Some(MusicOrdinals::Thirteenth)
        } else if s == "fourteenth"@ {
            Some(MusicOrdinals::Fourteenth)
        } else if s == "double-octave"@ {
            Some(MusicOrdinals::DoubleOctave)
        } else if s == "sixteenth"@ {
            Some(MusicOrdinals::Sixteenth)
        } else if s == "seventeenth"@ {
            Some(MusicOrdinals::Seventeenth)
        } else if s == "eighteenth"@ {
            Some(MusicOrdinals::Eighteenth)
        } else if s == "nineteenth"@ {
            Some(MusicOrdinals::Nineteenth)
        } else if s == "twentieth"@ {
            Some(MusicOrdinals::Twentieth)
        } else if s == "twenty-first"@ {
            Some(MusicOrdinals::TwentyFirst)
        } else if s == "triple-octave"@ {
            Some(MusicOrdinals::TripleOctave)
        } else {
            None
        }
    }

    /// The ordinal at a place, from 0 to 22.
    pub fn from_index(value: UnsignedIntegerType) -> (r: ExceptionResult<MusicOrdinals>)
        ensures
            r is Ok <==> value <= 22,
            r is Ok ==> r->Ok_0 == MusicOrdinals::at(value as int) && r->Ok_0.index() == value,
            r is Err ==> r->Err_0 is Ordinal && r->Err_0.message_spec() == "Invalid MusicOrdinals value: "@
                + decimal_of(value as nat),
    {
        if value == 0 {
            Ok(MusicOrdinals::Zeroth)
        } else if value == 1 {
            Ok(MusicOrdinals::Unison)
        } else if value == 2 {
            Ok(MusicOrdinals::Second)
        } else if value == 3 {
            Ok(MusicOrdinals::Third)
        } else if value == 4 {
            Ok(MusicOrdinals::Fourth)
        } else if value == 5 {
            Ok(MusicOrdinals::Fifth)
        } else if value == 6 {
            Ok(MusicOrdinals::Sixth)
        } else if value == 7 {
            Ok(MusicOrdinals::Seventh)
        } else if value == 8 {
            Ok(MusicOrdinals::Octave)
        } else if value == 9 {
            Ok(MusicOrdinals::Ninth)
        } else if value == 10 {
            Ok(MusicOrdinals::Tenth)
        } else if value == 11 {
            Ok(MusicOrdinals::Eleventh)
        } else if value == 12 {
            Ok(MusicOrdinals::Twelfth)
        } else if value == 13 {
            Ok(MusicOrdinals::Thirteenth)
        } else if value == 14 {
            Ok(MusicOrdinals::Fourteenth)
        } else if value == 15 {
            Ok(MusicOrdinals::DoubleOctave)
        } else if value == 16 {
            Ok(MusicOrdinals::Sixteenth)
        } else if value == 17 {
            Ok(MusicOrdinals::Seventeenth)
        } else if value == 18 {
            Ok(MusicOrdinals::Eighteenth)
        } else if value == 19 {
            Ok(MusicOrdinals::Nineteenth)
        } else if value == 20 {
            Ok(MusicOrdinals::Twentieth)
        } else if value == 21 {
            Ok(MusicOrdinals::TwentyFirst)
        } else if value == 22 {
            Ok(MusicOrdinals::TripleOctave)
        } else {
            Err(
                Exception::Ordinal(
                    String::from_str("Invalid MusicOrdinals value: ").concat(decimal_text(value).as_str()),
                ),
            )
        }
    }

    /// The ordinal that a name in lower case names; `given` is the name as
    /// it was given, for the error's message.
    pub fn from_lowercase(lower: &str, given: &str) -> (r: ExceptionResult<MusicOrdinals>)
        ensures
            r is Ok <==> MusicOrdinals::from_lower_spec(lower@) is Some,
            r is Ok ==> Some(r->Ok_0) == MusicOrdinals::from_lower_spec(lower@),
            r is Err ==> r->Err_0 is Ordinal && r->Err_0.message_spec() == "Invalid MusicOrdinals string: "@
                + given@,
    {
        if str_eq(lower, "zeroth") {
            Ok(MusicOrdinals::Zeroth)
        } else if str_eq(lower, "unison") {
            Ok(MusicOrdinals::Unison)
        } else if str_eq(lower, "second") {
            Ok(MusicOrdinals::Second)
        } else if str_eq(lower, "third") {
            Ok(MusicOrdinals::Third)
        } else if str_eq(lower, "fourth") {
            Ok(MusicOrdinals::Fourth)
        } else if str_eq(lower, "fifth") {
            Ok(MusicOrdinals::Fifth)
        } else if str_eq(lower, "sixth") {
            Ok(MusicOrdinals::Sixth)
        } else if str_eq(lower, "seventh") {
            Ok(MusicOrdinals::Seventh)
        } else if str_eq(lower, "octave") {
            Ok(MusicOrdinals::Octave)
        } else if str_eq(lower, "ninth") {
            Ok(MusicOrdinals::Ninth)
        } else if str_eq(lower, "tenth") {
            Ok(MusicOrdinals::Tenth)
        } else if str_eq(lower, "eleventh") {
            Ok(MusicOrdinals::Eleventh)
        } else if str_eq(lower, "twelfth") {
            Ok(MusicOrdinals::Twelfth)
        } else if str_eq(lower, "thirteenth") {
            Ok(MusicOrdinals::Thirteenth)
        } else if str_eq(lower, "fourteenth") {
            Ok(MusicOrdinals::Fourteenth)
        } else if str_eq(lower, "double-octave") {
            Ok(MusicOrdinals::DoubleOctave)
        } else if str_eq(lower, "sixteenth") {
            Ok(MusicOrdinals::Sixteenth)
        } else if str_eq(lower, "seventeenth") {
            Ok(MusicOrdinals::Seventeenth)
        } else if str_eq(lower, "eighteenth") {
            Ok(MusicOrdinals::Eighteenth)
        } else if str_eq(lower, "nineteenth") {
            Ok(MusicOrdinals::Nineteenth)
        } else if str_eq(lower, "twentieth") {
            Ok(MusicOrdinals::Twentieth)
        } else if str_eq(lower, "twenty-first") {
            Ok(MusicOrdinals::TwentyFirst)
        } else if str_eq(lower, "triple-octave") {
            Ok(MusicOrdinals::TripleOctave)
        } else {
            Err(Exception::Ordinal(String::from_str("Invalid MusicOrdinals string: ").concat(given)))
        }
    }

    /// The ordinal that a name names, whatever its case.
    pub fn from_name(value: &str) -> (r: ExceptionResult<MusicOrdinals>)
        ensures
            r is Ok <==> MusicOrdinals::from_lower_spec(lowercase_of(value@)) is Some,
            r is Ok ==> Some(r->Ok_0) == MusicOrdinals::from_lower_spec(lowercase_of(value@)),
            r is Err ==> r->Err_0 is Ordinal,
    {
        let lower = to_lowercase(value);
        MusicOrdinals::from_lowercase(lower.as_str(), value)
    }

    /// The ordinal's name, with a capital.
    pub fn name(&self) -> (text: &'static str)
        ensures
            text@ == self.name_spec(),
    {
        match self {
            MusicOrdinals::Zeroth => "Zeroth",
            MusicOrdinals::Unison => "Unison",
            MusicOrdinals::Second => "Second",
            MusicOrdinals::Third => "Third",
            MusicOrdinals::Fourth => "Fourth",
            MusicOrdinals::Fifth => "Fifth",
            MusicOrdinals::Sixth => "Sixth",
            MusicOrdinals::Seventh => "Seventh",
            MusicOrdinals::Octave => "Octave",
            MusicOrdinals::Ninth => "Ninth",
            MusicOrdinals::Tenth => "Tenth",
            MusicOrdinals::Eleventh => "Eleventh",
            MusicOrdinals::Twelfth => "Twelfth",
            MusicOrdinals::Thirteenth => "Thirteenth",
            MusicOrdinals::Fourteenth => "Fourteenth",
            MusicOrdinals::DoubleOctave => "Double-octave",
            MusicOrdinals::Sixteenth => "Sixteenth",
            MusicOrdinals::Seventeenth => "Seventeenth",
            MusicOrdinals::Eighteenth => "Eighteenth",
            MusicOrdinals::Nineteenth => "Nineteenth",
            MusicOrdinals::Twentieth => "Twentieth",
            MusicOrdinals::TwentyFirst => "Twenty-first",
            MusicOrdinals::TripleOctave => "Triple-octave",
        }
    }
}

impl TryFrom<UnsignedIntegerType> for MusicOrdinals {
    type Error = Exception;

    fn try_from(value: UnsignedIntegerType) -> (r: Result<Self, Exception>)
        ensures
            r is Ok <==> value <= 22,
            r is Ok ==> r->Ok_0.index() == value,
            r is Err ==> r->Err_0 is Ordinal,
    {
        MusicOrdinals::from_index(value)
    }
}

/// An error carries its message as a text, which a specification cannot
/// build: the conversion is specified by the `ensures` of `try_from` alone.
impl vstd::std_specs::convert::TryFromSpecImpl<UnsignedIntegerType> for MusicOrdinals {
    open spec fn obeys_try_from_spec() -> bool {
        false
    }

    open spec fn try_from_spec(v: UnsignedIntegerType) -> Result<Self, Exception> {
        arbitrary()
    }
}

impl<'a> TryFrom<&'a str> for MusicOrdinals {
    type Error = Exception;

    fn try_from(value: &'a str) -> (r: Result<Self, Exception>)
        ensures
            r is Ok <==> MusicOrdinals::from_lower_spec(lowercase_of(value@)) is Some,
            r is Ok ==> Some(r->Ok_0) == MusicOrdinals::from_lower_spec(lowercase_of(value@)),
            r is Err ==> r->Err_0 is Ordinal,
    {
        MusicOrdinals::from_name(value)
    }
}

impl<'a> vstd::std_specs::convert::TryFromSpecImpl<&'a str> for MusicOrdinals {
    open spec fn obeys_try_from_spec() -> bool {
        false
    }

    open spec fn try_from_spec(v: &'a str) -> Result<Self, Exception> {
        arbitrary()
    }
}

/// The names of the ordinals, in their order.
pub fn ordinal_strings() -> (names: Vec<String>)
    ensures
        names@.len() == 23,
        forall|i: int| 0 <= i < 23 ==> (#[trigger] names@[i])@ == Ordinal::at(i).name_spec(),
{
    let mut names: Vec<String> = Vec::new();
    let mut i: UnsignedIntegerType = 0;
    while i < 23
        invariant
            i <= 23,
            names@.len() == i,
            forall|j: int| 0 <= j < i ==> (#[trigger] names@[j])@ == Ordinal::at(j).name_spec(),
        decreases 23 - i,
    {
        let ordinal = match Ordinal::from_index(i) {
            Ok(ordinal) => ordinal,
            Err(_) => Ordinal::Zeroth,
        };
        names.push(String::from_str(ordinal.name()));
        i = i + 1;
    }
    names
}

/// The names of the ordinals of music, in their order.
pub fn musical_ordinal_strings() -> (names: Vec<String>)
    ensures
        names@.len() == 23,
        forall|i: int| 0 <= i < 23 ==> (#[trigger] names@[i])@ == MusicOrdinals::at(i).name_spec(),
{
    let mut names: Vec<String> = Vec::new();
    let mut i: UnsignedIntegerType = 0;
    while i < 23
        invariant
            i <= 23,
            names@.len() == i,
            forall|j: int| 0 <= j < i ==> (#[trigger] names@[j])@ == MusicOrdinals::at(j).name_spec(),
        decreases 23 - i,
    {
        let ordinal = match MusicOrdinals::from_index(i) {
            Ok(ordinal) => ordinal,
            Err(_) => MusicOrdinals::Zeroth,
        };
        names.push(String::from_str(ordinal.name()));
        i = i + 1;
    }
    names
}

} // verus!
