use crate::common::stringtools::{lowercase_of, signed_decimal_text, str_eq, to_lowercase};
use crate::defaults::IntegerType;
use crate::exception::{Exception, ExceptionResult};
use vstd::prelude::*;
use vstd::string::*;

verus! {

/// The thirteen accidentals, from quadruple flat to quadruple sharp.
#[derive(Debug, PartialEq, Eq, Clone, Copy, Structural)]
pub enum AccidentalEnum {
    Natural,
    HalfSharp,
    Sharp,
    OneAndAHalfSharp,
    DoubleSharp,
    TripleSharp,
    QuadrupleSharp,
    HalfFlat,
    Flat,
    OneAndAHalfFlat,
    DoubleFlat,
    TripleFlat,
    QuadrupleFlat,
}

impl AccidentalEnum {
    /// The accidental's name.
    pub open spec fn to_name_spec(&self) -> Seq<char> {
        match self {
            AccidentalEnum::Natural => "natural"@,
            AccidentalEnum::HalfSharp => "half-sharp"@,
            AccidentalEnum::Sharp => "sharp"@,
            AccidentalEnum::OneAndAHalfSharp => "one-and-a-half-sharp"@,
            AccidentalEnum::DoubleSharp => "double-sharp"@,
            AccidentalEnum::TripleSharp => "triple-sharp"@,
            AccidentalEnum::QuadrupleSharp => "quadruple-sharp"@,
            AccidentalEnum::HalfFlat => "half-flat"@,
            AccidentalEnum::Flat => "flat"@,
            AccidentalEnum::OneAndAHalfFlat => "one-and-a-half-flat"@,
            AccidentalEnum::DoubleFlat => "double-flat"@,
            AccidentalEnum::TripleFlat => "triple-flat"@,
            AccidentalEnum::QuadrupleFlat => "quadruple-flat"@,
        }
    }

    /// The accidental's name.
    pub fn to_name(&self) -> (text: &'static str)
        ensures
            text@ == self.to_name_spec(),
    {
        match self {
            AccidentalEnum::Natural => "natural",
            AccidentalEnum::HalfSharp => "half-sharp",
            AccidentalEnum::Sharp => "sharp",
            AccidentalEnum::OneAndAHalfSharp => "one-and-a-half-sharp",
            AccidentalEnum::DoubleSharp => "double-sharp",
            AccidentalEnum::TripleSharp => "triple-sharp",
            AccidentalEnum::QuadrupleSharp => "quadruple-sharp",
            AccidentalEnum::HalfFlat => "half-flat",
            AccidentalEnum::Flat => "flat",
            AccidentalEnum::OneAndAHalfFlat => "one-and-a-half-flat",
            AccidentalEnum::DoubleFlat => "double-flat",
            AccidentalEnum::TripleFlat => "triple-flat",
            AccidentalEnum::QuadrupleFlat => "quadruple-flat",
        }
    }

    /// The accidental that a name names.
    pub open spec fn from_name_spec(s: Seq<char>) -> Option<AccidentalEnum> {
        if s == "natural"@ {
            Some(AccidentalEnum::Natural)
        } else if s == "half-sharp"@ {
            Some(AccidentalEnum::HalfSharp)
        } else if s == "sharp"@ {
            Some(AccidentalEnum::Sharp)
        } else if s == "one-and-a-half-sharp"@ {
            Some(AccidentalEnum::OneAndAHalfSharp)
        } else if s == "double-sharp"@ {
            Some(AccidentalEnum::DoubleSharp)
        } else if s == "triple-sharp"@ {
            Some(AccidentalEnum::TripleSharp)
        } else if s == "quadruple-sharp"@ {
            Some(AccidentalEnum::QuadrupleSharp)
        } else if s == "half-flat"@ {
            Some(AccidentalEnum::HalfFlat)
        } else if s == "flat"@ {
            Some(AccidentalEnum::Flat)
        } else if s == "one-and-a-half-flat"@ {
            Some(AccidentalEnum::OneAndAHalfFlat)
        } else if s == "double-flat"@ {
            Some(AccidentalEnum::DoubleFlat)
        } else if s == "triple-flat"@ {
            Some(AccidentalEnum::TripleFlat)
        } else if s == "quadruple-flat"@ {
            Some(AccidentalEnum::QuadrupleFlat)
        } else {
            None
        }
    }

    /// The accidental that a name names.
    pub fn from_name(s: &str) -> (kind: Option<AccidentalEnum>)
        ensures
            kind == AccidentalEnum::from_name_spec(s@),
    {
        if str_eq(s, "natural") {
            Some(AccidentalEnum::Natural)
        } else if str_eq(s, "half-sharp") {
            Some(AccidentalEnum::HalfSharp)
        } else if str_eq(s, "sharp") {
            Some(AccidentalEnum::Sharp)
        } else if str_eq(s, "one-and-a-half-sharp") {
            Some(AccidentalEnum::OneAndAHalfSharp)
        } else if str_eq(s, "double-sharp") {
            Some(AccidentalEnum::DoubleSharp)
        } else if str_eq(s, "triple-sharp") {
            Some(AccidentalEnum::TripleSharp)
        } else if str_eq(s, "quadruple-sharp") {
            Some(AccidentalEnum::QuadrupleSharp)
        } else if str_eq(s, "half-flat") {
            Some(AccidentalEnum::HalfFlat)
        } else if str_eq(s, "flat") {
            Some(AccidentalEnum::Flat)
        } else if str_eq(s, "one-and-a-half-flat") {
            Some(AccidentalEnum::OneAndAHalfFlat)
        } else if str_eq(s, "double-flat") {
            Some(AccidentalEnum::DoubleFlat)
        } else if str_eq(s, "triple-flat") {
            Some(AccidentalEnum::TripleFlat)
        } else if str_eq(s, "quadruple-flat") {
            Some(AccidentalEnum::QuadrupleFlat)
        } else {
            None
        }
    }

    /// The alteration in millionths of a semitone: half a semitone is 500 000.
    pub open spec fn alter_spec(&self) -> int {
        match self {
            AccidentalEnum::Natural => 0,
            AccidentalEnum::HalfSharp => 500000,
            AccidentalEnum::Sharp => 1000000,
            AccidentalEnum::OneAndAHalfSharp => 1500000,
            AccidentalEnum::DoubleSharp => 2000000,
            AccidentalEnum::TripleSharp => 3000000,
            AccidentalEnum::QuadrupleSharp => 4000000,
            AccidentalEnum::HalfFlat => -500000,
            AccidentalEnum::Flat => -1000000,
            AccidentalEnum::OneAndAHalfFlat => -1500000,
            AccidentalEnum::DoubleFlat => -2000000,
            AccidentalEnum::TripleFlat => -3000000,
            AccidentalEnum::QuadrupleFlat => -4000000,
        }
    }

    /// The alteration in millionths of a semitone: half a semitone is 500 000.
    pub fn to_alter(&self) -> (alter: IntegerType)
        ensures
            alter == self.alter_spec(),
    {
        match self {
            AccidentalEnum::Natural => 0,
            AccidentalEnum::HalfSharp => 500000,
            AccidentalEnum::Sharp => 1000000,
            AccidentalEnum::OneAndAHalfSharp => 1500000,
            AccidentalEnum::DoubleSharp => 2000000,
            AccidentalEnum::TripleSharp => 3000000,
            AccidentalEnum::QuadrupleSharp => 4000000,
            AccidentalEnum::HalfFlat => -500000,
            AccidentalEnum::Flat => -1000000,
            AccidentalEnum::OneAndAHalfFlat => -1500000,
            AccidentalEnum::DoubleFlat => -2000000,
            AccidentalEnum::TripleFlat => -3000000,
            AccidentalEnum::QuadrupleFlat => -4000000,
        }
    }

    /// The accidental with a given alteration, in millionths of a semitone.
    pub open spec fn from_alter_spec(alter: int) -> Option<AccidentalEnum> {
        if alter == -4000000 {
            Some(AccidentalEnum::QuadrupleFlat)
        } else if alter == -3000000 {
            Some(AccidentalEnum::TripleFlat)
        } else if alter == -2000000 {
            Some(AccidentalEnum::DoubleFlat)
        } else if alter == -1500000 {
            Some(AccidentalEnum::OneAndAHalfFlat)
        } else if alter == -1000000 {
            Some(AccidentalEnum::Flat)
        } else if alter == -500000 {
            Some(AccidentalEnum::HalfFlat)
        } else if alter == 0 {
            Some(AccidentalEnum::Natural)
        } else if alter == 500000 {
            Some(AccidentalEnum::HalfSharp)
        } else if alter == 1000000 {
            Some(AccidentalEnum::Sharp)
        } else if alter == 1500000 {
            Some(AccidentalEnum::OneAndAHalfSharp)
        } else if alter == 2000000 {
            Some(AccidentalEnum::DoubleSharp)
        } else if alter == 3000000 {
            Some(AccidentalEnum::TripleSharp)
        } else if alter == 4000000 {
            Some(AccidentalEnum::QuadrupleSharp)
        } else {
            None
        }
    }

    /// The accidental with a given alteration, in millionths of a semitone.
    pub fn from_alter(alter: IntegerType) -> (kind: Option<AccidentalEnum>)
        ensures
            kind == AccidentalEnum::from_alter_spec(alter as int),
            kind is Some <==> exists|k: AccidentalEnum| k.alter_spec() == alter,
            kind is Some ==> kind->Some_0.alter_spec() == alter,
    {
        if alter == -4000000 {
            assert(AccidentalEnum::QuadrupleFlat.alter_spec() == alter);
            Some(AccidentalEnum::QuadrupleFlat)
        } else if alter == -3000000 {
            assert(AccidentalEnum::TripleFlat.alter_spec() == alter);
            Some(AccidentalEnum::TripleFlat)
        } else if alter == -2000000 {
            assert(AccidentalEnum::DoubleFlat.alter_spec() == alter);
            Some(AccidentalEnum::DoubleFlat)
        } else if alter == -1500000 {
            assert(AccidentalEnum::OneAndAHalfFlat.alter_spec() == alter);
            Some(AccidentalEnum::OneAndAHalfFlat)
        } else if alter == -1000000 {
            assert(AccidentalEnum::Flat.alter_spec() == alter);
            Some(AccidentalEnum::Flat)
        } else if alter == -500000 {
            assert(AccidentalEnum::HalfFlat.alter_spec() == alter);
            Some(AccidentalEnum::HalfFlat)
        } else if alter == 0 {
            assert(AccidentalEnum::Natural.alter_spec() == alter);
            Some(AccidentalEnum::Natural)
        } else if alter == 500000 {
            assert(AccidentalEnum::HalfSharp.alter_spec() == alter);
            Some(AccidentalEnum::HalfSharp)
        } else if alter == 1000000 {
            assert(AccidentalEnum::Sharp.alter_spec() == alter);
            Some(AccidentalEnum::Sharp)
        } else if alter == 1500000 {
            assert(AccidentalEnum::OneAndAHalfSharp.alter_spec() == alter);
            Some(AccidentalEnum::OneAndAHalfSharp)
        } else if alter == 2000000 {
            assert(AccidentalEnum::DoubleSharp.alter_spec() == alter);
            Some(AccidentalEnum::DoubleSharp)
        } else if alter == 3000000 {
            assert(AccidentalEnum::TripleSharp.alter_spec() == alter);
            Some(AccidentalEnum::TripleSharp)
        } else if alter == 4000000 {
            assert(AccidentalEnum::QuadrupleSharp.alter_spec() == alter);
            Some(AccidentalEnum::QuadrupleSharp)
        } else {
            None
        }
    }

    /// The alteration in semitones, written as a decimal number.
    pub open spec fn to_alter_str_spec(&self) -> Seq<char> {
        match self {
            AccidentalEnum::Natural => "0.0"@,
            AccidentalEnum::HalfSharp => "0.5"@,
            AccidentalEnum::Sharp => "1.0"@,
            AccidentalEnum::OneAndAHalfSharp => "1.5"@,
            AccidentalEnum::DoubleSharp => "2.0"@,
            AccidentalEnum::TripleSharp => "3.0"@,
            AccidentalEnum::QuadrupleSharp => "4.0"@,
            AccidentalEnum::HalfFlat => "-0.5"@,
            AccidentalEnum::Flat => "-1.0"@,
            AccidentalEnum::OneAndAHalfFlat => "-1.5"@,
            AccidentalEnum::DoubleFlat => "-2.0"@,
            AccidentalEnum::TripleFlat => "-3.0"@,
            AccidentalEnum::QuadrupleFlat => "-4.0"@,
        }
    }

    /// The alteration in semitones, written as a decimal number.
    pub fn to_alter_str(&self) -> (text: &'static str)
        ensures
            text@ == self.to_alter_str_spec(),
    {
        match self {
            AccidentalEnum::Natural => "0.0",
            AccidentalEnum::HalfSharp => "0.5",
            AccidentalEnum::Sharp => "1.0",
            AccidentalEnum::OneAndAHalfSharp => "1.5",
            AccidentalEnum::DoubleSharp => "2.0",
            AccidentalEnum::TripleSharp => "3.0",
            AccidentalEnum::QuadrupleSharp => "4.0",
            AccidentalEnum::HalfFlat => "-0.5",
            AccidentalEnum::Flat => "-1.0",
            AccidentalEnum::OneAndAHalfFlat => "-1.5",
            AccidentalEnum::DoubleFlat => "-2.0",
            AccidentalEnum::TripleFlat => "-3.0",
            AccidentalEnum::QuadrupleFlat => "-4.0",
        }
    }

    /// The accidental whose alteration in semitones a decimal number gives.
    pub open spec fn from_alter_str_spec(s: Seq<char>) -> Option<AccidentalEnum> {
        if s == "-4.0"@ {
            Some(AccidentalEnum::QuadrupleFlat)
        } else if s == "-3.0"@ {
            Some(AccidentalEnum::TripleFlat)
        } else if s == "-2.0"@ {
            Some(AccidentalEnum::DoubleFlat)
        } else if s == "-1.5"@ {
            Some(AccidentalEnum::OneAndAHalfFlat)
        } else if s == "-1.0"@ {
            Some(AccidentalEnum::Flat)
        } else if s == "-0.5"@ {
            Some(AccidentalEnum::HalfFlat)
        } else if s == "0.0"@ {
            Some(AccidentalEnum::Natural)
        } else if s == "0.5"@ {
            Some(AccidentalEnum::HalfSharp)
        } else if s == "1.0"@ {
            Some(AccidentalEnum::Sharp)
        } else if s == "1.5"@ {
            Some(AccidentalEnum::OneAndAHalfSharp)
        } else if s == "2.0"@ {
            Some(AccidentalEnum::DoubleSharp)
        } else if s == "3.0"@ {
            Some(AccidentalEnum::TripleSharp)
        } else if s == "4.0"@ {
            Some(AccidentalEnum::QuadrupleSharp)
        } else {
            None
        }
    }

    /// The accidental whose alteration in semitones a decimal number gives.
    pub fn from_alter_str(s: &str) -> (kind: Option<AccidentalEnum>)
        ensures
            kind == AccidentalEnum::from_alter_str_spec(s@),
    {
        if str_eq(s, "-4.0") {
            Some(AccidentalEnum::QuadrupleFlat)
        } else if str_eq(s, "-3.0") {
            Some(AccidentalEnum::TripleFlat)
        } else if str_eq(s, "-2.0") {
            Some(AccidentalEnum::DoubleFlat)
        } else if str_eq(s, "-1.5") {
            Some(AccidentalEnum::OneAndAHalfFlat)
        } else if str_eq(s, "-1.0") {
            Some(AccidentalEnum::Flat)
        } else if str_eq(s, "-0.5") {
            Some(AccidentalEnum::HalfFlat)
        } else if str_eq(s, "0.0") {
            Some(AccidentalEnum::Natural)
        } else if str_eq(s, "0.5") {
            Some(AccidentalEnum::HalfSharp)
        } else if str_eq(s, "1.0") {
            Some(AccidentalEnum::Sharp)
        } else if str_eq(s, "1.5") {
            Some(AccidentalEnum::OneAndAHalfSharp)
        } else if str_eq(s, "2.0") {
            Some(AccidentalEnum::DoubleSharp)
        } else if str_eq(s, "3.0") {
            Some(AccidentalEnum::TripleSharp)
        } else if str_eq(s, "4.0") {
            Some(AccidentalEnum::QuadrupleSharp)
        } else {
            None
        }
    }

    /// The accidental's sign in a pitch name.
    pub open spec fn to_modifier_spec(&self) -> Seq<char> {
        match self {
            AccidentalEnum::Natural => ""@,
            AccidentalEnum::HalfSharp => "~"@,
            AccidentalEnum::Sharp => "#"@,
            AccidentalEnum::OneAndAHalfSharp => "#~"@,
            AccidentalEnum::DoubleSharp => "##"@,
            AccidentalEnum::TripleSharp => "###"@,
            AccidentalEnum::QuadrupleSharp => "####"@,
            AccidentalEnum::HalfFlat => "`"@,
            AccidentalEnum::Flat => "-"@,
            AccidentalEnum::OneAndAHalfFlat => "-`"@,
            AccidentalEnum::DoubleFlat => "--"@,
            AccidentalEnum::TripleFlat => "---"@,
            AccidentalEnum::QuadrupleFlat => "----"@,
        }
    }

    /// The accidental's sign in a pitch name.
    pub fn to_modifier(&self) -> (text: &'static str)
        ensures
            text@ == self.to_modifier_spec(),
    {
        match self {
            AccidentalEnum::Natural => "",
            AccidentalEnum::HalfSharp => "~",
            AccidentalEnum::Sharp => "#",
            AccidentalEnum::OneAndAHalfSharp => "#~",
            AccidentalEnum::DoubleSharp => "##",
            AccidentalEnum::TripleSharp => "###",
            AccidentalEnum::QuadrupleSharp => "####",
            AccidentalEnum::HalfFlat => "`",
            AccidentalEnum::Flat => "-",
            AccidentalEnum::OneAndAHalfFlat => "-`",
            AccidentalEnum::DoubleFlat => "--",
            AccidentalEnum::TripleFlat => "---",
            AccidentalEnum::QuadrupleFlat => "----",
        }
    }

    /// The accidental that a sign in a pitch name stands for.
    pub open spec fn from_modifier_spec(s: Seq<char>) -> Option<AccidentalEnum> {
        if s == ""@ {
            Some(AccidentalEnum::Natural)
        } else if s == "~"@ {
            Some(AccidentalEnum::HalfSharp)
        } else if s == "#"@ {
            Some(AccidentalEnum::Sharp)
        } else if s == "#~"@ {
            Some(AccidentalEnum::OneAndAHalfSharp)
        } else if s == "##"@ {
            Some(AccidentalEnum::DoubleSharp)
        } else if s == "###"@ {
            Some(AccidentalEnum::TripleSharp)
        } else if s == "####"@ {
            Some(AccidentalEnum::QuadrupleSharp)
        } else if s == "`"@ {
            Some(AccidentalEnum::HalfFlat)
        } else if s == "-"@ {
            Some(AccidentalEnum::Flat)
        } else if s == "-`"@ {
            Some(AccidentalEnum::OneAndAHalfFlat)
        } else if s == "--"@ {
            Some(AccidentalEnum::DoubleFlat)
        } else if s == "---"@ {
            Some(AccidentalEnum::TripleFlat)
        } else if s == "----"@ {
            Some(AccidentalEnum::QuadrupleFlat)
        } else {
            None
        }
    }

    /// The accidental that a sign in a pitch name stands for.
    pub fn from_modifier(s: &str) -> (kind: Option<AccidentalEnum>)
        ensures
            kind == AccidentalEnum::from_modifier_spec(s@),
    {
        if str_eq(s, "") {
            Some(AccidentalEnum::Natural)
        } else if str_eq(s, "~") {
            Some(AccidentalEnum::HalfSharp)
        } else if str_eq(s, "#") {
            Some(AccidentalEnum::Sharp)
        } else if str_eq(s, "#~") {
            Some(AccidentalEnum::OneAndAHalfSharp)
        } else if str_eq(s, "##") {
            Some(AccidentalEnum::DoubleSharp)
        } else if str_eq(s, "###") {
            Some(AccidentalEnum::TripleSharp)
        } else if str_eq(s, "####") {
            Some(AccidentalEnum::QuadrupleSharp)
        } else if str_eq(s, "`") {
            Some(AccidentalEnum::HalfFlat)
        } else if str_eq(s, "-") {
            Some(AccidentalEnum::Flat)
        } else if str_eq(s, "-`") {
            Some(AccidentalEnum::OneAndAHalfFlat)
        } else if str_eq(s, "--") {
            Some(AccidentalEnum::DoubleFlat)
        } else if str_eq(s, "---") {
            Some(AccidentalEnum::TripleFlat)
        } else if str_eq(s, "----") {
            Some(AccidentalEnum::QuadrupleFlat)
        } else {
            None
        }
    }

    /// The accidental in musical symbols. The triple flat is written as the flat.
    pub open spec fn to_unicode_spec(&self) -> Seq<char> {
        match self {
            AccidentalEnum::QuadrupleSharp => "\u{1d12a}\u{1d12a}"@,
            AccidentalEnum::TripleSharp => "\u{266f}\u{1d12a}"@,
            AccidentalEnum::DoubleSharp => "\u{1d12a}"@,
            AccidentalEnum::OneAndAHalfSharp => "\u{266f}\u{1d132}"@,
            AccidentalEnum::Sharp => "\u{266f}"@,
            AccidentalEnum::HalfSharp => "\u{1d132}"@,
            AccidentalEnum::QuadrupleFlat => "\u{1d12b}\u{1d12b}"@,
            AccidentalEnum::TripleFlat => "\u{266d}"@,
            AccidentalEnum::DoubleFlat => "\u{1d12b}"@,
            AccidentalEnum::OneAndAHalfFlat => "\u{266d}\u{1d132}"@,
            AccidentalEnum::Flat => "\u{266d}"@,
            AccidentalEnum::HalfFlat => "\u{1d132}"@,
            AccidentalEnum::Natural => "\u{266e}"@,
        }
    }

    /// The accidental in musical symbols. The triple flat is written as the flat.
    pub fn to_unicode(&self) -> (text: &'static str)
        ensures
            text@ == self.to_unicode_spec(),
    {
        match self {
            AccidentalEnum::QuadrupleSharp => "\u{1d12a}\u{1d12a}",
            AccidentalEnum::TripleSharp => "\u{266f}\u{1d12a}",
            AccidentalEnum::DoubleSharp => "\u{1d12a}",
            AccidentalEnum::OneAndAHalfSharp => "\u{266f}\u{1d132}",
            AccidentalEnum::Sharp => "\u{266f}",
            AccidentalEnum::HalfSharp => "\u{1d132}",
            AccidentalEnum::QuadrupleFlat => "\u{1d12b}\u{1d12b}",
            AccidentalEnum::TripleFlat => "\u{266d}",
            AccidentalEnum::DoubleFlat => "\u{1d12b}",
            AccidentalEnum::OneAndAHalfFlat => "\u{266d}\u{1d132}",
            AccidentalEnum::Flat => "\u{266d}",
            AccidentalEnum::HalfFlat => "\u{1d132}",
            AccidentalEnum::Natural => "\u{266e}",
        }
    }

    /// The accidental that musical symbols stand for. The flat sign reads as a
    /// triple flat and the quarter-tone sign as a half sharp.
    pub open spec fn from_unicode_spec(s: Seq<char>) -> Option<AccidentalEnum> {
        if s == "\u{1d12a}\u{1d12a}"@ {
            Some(AccidentalEnum::QuadrupleSharp)
        } else if s == "\u{266f}\u{1d12a}"@ {
            Some(AccidentalEnum::TripleSharp)
        } else if s == "\u{1d12a}"@ {
            Some(AccidentalEnum::DoubleSharp)
        } else if s == "\u{266f}\u{1d132}"@ {
            Some(AccidentalEnum::OneAndAHalfSharp)
        } else if s == "\u{266f}"@ {
            Some(AccidentalEnum::Sharp)
        } else if s == "\u{1d12b}\u{1d12b}"@ {
            Some(AccidentalEnum::QuadrupleFlat)
        } else if s == "\u{266d}"@ {
            Some(AccidentalEnum::TripleFlat)
        } else if s == "\u{1d12b}"@ {
            Some(AccidentalEnum::DoubleFlat)
        } else if s == "\u{266d}\u{1d132}"@ {
            Some(AccidentalEnum::OneAndAHalfFlat)
        } else if s == "\u{1d132}"@ {
            Some(AccidentalEnum::HalfSharp)
        } else if s == "\u{266e}"@ {
            Some(AccidentalEnum::Natural)
        } else {
            None
        }
    }

    /// The accidental that musical symbols stand for. The flat sign reads as a
    /// triple flat and the quarter-tone sign as a half sharp.
    pub fn from_unicode(s: &str) -> (kind: Option<AccidentalEnum>)
        ensures
            kind == AccidentalEnum::from_unicode_spec(s@),
    {
        if str_eq(s, "\u{1d12a}\u{1d12a}") {
            Some(AccidentalEnum::QuadrupleSharp)
        } else if str_eq(s, "\u{266f}\u{1d12a}") {
            Some(AccidentalEnum::TripleSharp)
        } else if str_eq(s, "\u{1d12a}") {
            Some(AccidentalEnum::DoubleSharp)
        } else if str_eq(s, "\u{266f}\u{1d132}") {
            Some(AccidentalEnum::OneAndAHalfSharp)
        } else if str_eq(s, "\u{266f}") {
            Some(AccidentalEnum::Sharp)
        } else if str_eq(s, "\u{1d12b}\u{1d12b}") {
            Some(AccidentalEnum::QuadrupleFlat)
        } else if str_eq(s, "\u{266d}") {
            Some(AccidentalEnum::TripleFlat)
        } else if str_eq(s, "\u{1d12b}") {
            Some(AccidentalEnum::DoubleFlat)
        } else if str_eq(s, "\u{266d}\u{1d132}") {
            Some(AccidentalEnum::OneAndAHalfFlat)
        } else if str_eq(s, "\u{1d132}") {
            Some(AccidentalEnum::HalfSharp)
        } else if str_eq(s, "\u{266e}") {
            Some(AccidentalEnum::Natural)
        } else {
            None
        }
    }

    /// The accidental that one of the other names in use names.
    pub open spec fn from_alternate_name_spec(s: Seq<char>) -> Option<AccidentalEnum> {
        if s == "n"@ {
            Some(AccidentalEnum::Natural)
        } else if s == "is"@ {
            Some(AccidentalEnum::Sharp)
        } else if s == "isis"@ {
            Some(AccidentalEnum::DoubleSharp)
        } else if s == "isisis"@ {
            Some(AccidentalEnum::TripleSharp)
        } else if s == "isisisis"@ {
            Some(AccidentalEnum::QuadrupleSharp)
        } else if s == "ih"@ || s == "quarter-sharp"@ || s == "semisharp"@ {
            Some(AccidentalEnum::HalfSharp)
        } else if s == "isih"@ || s == "three-quarter-sharp"@ || s == "three-quarters-sharp"@ || s == "sesquisharp"@ {
            Some(AccidentalEnum::OneAndAHalfSharp)
        } else if s == "b"@ || s == "es"@ {
            Some(AccidentalEnum::Flat)
        } else if s == "eses"@ {
            Some(AccidentalEnum::DoubleFlat)
        } else if s == "eseses"@ {
            Some(AccidentalEnum::TripleFlat)
        } else if s == "eseseses"@ {
            Some(AccidentalEnum::QuadrupleFlat)
        } else if s == "eh"@ || s == "quarter-flat"@ || s == "semiflat"@ {
            Some(AccidentalEnum::HalfFlat)
        } else if s == "eseh"@ || s == "three-quarter-flat"@ || s == "three-quarters-flat"@ || s == "sesquiflat"@ {
            Some(AccidentalEnum::OneAndAHalfFlat)
        } else {
            None
        }
    }

    /// The accidental that one of the other names in use names.
    pub fn from_alternate_name(s: &str) -> (kind: Option<AccidentalEnum>)
        ensures
            kind == AccidentalEnum::from_alternate_name_spec(s@),
    {
        if str_eq(s, "n") {
            Some(AccidentalEnum::Natural)
        } else if str_eq(s, "is") {
            Some(AccidentalEnum::Sharp)
        } else if str_eq(s, "isis") {
            Some(AccidentalEnum::DoubleSharp)
        } else if str_eq(s, "isisis") {
            Some(AccidentalEnum::TripleSharp)
        } else if str_eq(s, "isisisis") {
            Some(AccidentalEnum::QuadrupleSharp)
        } else if str_eq(s, "ih") || str_eq(s, "quarter-sharp") || str_eq(s, "semisharp") {
            Some(AccidentalEnum::HalfSharp)
        } else if str_eq(s, "isih") || str_eq(s, "three-quarter-sharp") || str_eq(s, "three-quarters-sharp") || str_eq(s, "sesquisharp") {
            Some(AccidentalEnum::OneAndAHalfSharp)
        } else if str_eq(s, "b") || str_eq(s, "es") {
            Some(AccidentalEnum::Flat)
        } else if str_eq(s, "eses") {
            Some(AccidentalEnum::DoubleFlat)
        } else if str_eq(s, "eseses") {
            Some(AccidentalEnum::TripleFlat)
        } else if str_eq(s, "eseseses") {
            Some(AccidentalEnum::QuadrupleFlat)
        } else if str_eq(s, "eh") || str_eq(s, "quarter-flat") || str_eq(s, "semiflat") {
            Some(AccidentalEnum::HalfFlat)
        } else if str_eq(s, "eseh") || str_eq(s, "three-quarter-flat") || str_eq(s, "three-quarters-flat") || str_eq(s, "sesquiflat") {
            Some(AccidentalEnum::OneAndAHalfFlat)
        } else {
            None
        }
    }

    /// The accidental of a whole number of semitones.
    pub open spec fn from_int_spec(i: int) -> Option<AccidentalEnum> {
        if i == -4 {
            Some(AccidentalEnum::QuadrupleFlat)
        } else if i == -3 {
            Some(AccidentalEnum::TripleFlat)
        } else if i == -2 {
            Some(AccidentalEnum::DoubleFlat)
        } else if i == -1 {
            Some(AccidentalEnum::Flat)
        } else if i == 0 {
            Some(AccidentalEnum::Natural)
        } else if i == 1 {
            Some(AccidentalEnum::Sharp)
        } else if i == 2 {
            Some(AccidentalEnum::DoubleSharp)
        } else if i == 3 {
            Some(AccidentalEnum::TripleSharp)
        } else if i == 4 {
            Some(AccidentalEnum::QuadrupleSharp)
        } else {
            None
        }
    }

    /// The accidental of a whole number of semitones.
    pub fn from_int(i: i8) -> (kind: Option<AccidentalEnum>)
        ensures
            kind == AccidentalEnum::from_int_spec(i as int),
            kind is Some <==> -4 <= i <= 4,
            kind is Some ==> kind->Some_0.alter_spec() == i * 1_000_000,
    {
        if i == -4 {
            Some(AccidentalEnum::QuadrupleFlat)
        } else if i == -3 {
            Some(AccidentalEnum::TripleFlat)
        } else if i == -2 {
            Some(AccidentalEnum::DoubleFlat)
        } else if i == -1 {
            Some(AccidentalEnum::Flat)
        } else if i == 0 {
            Some(AccidentalEnum::Natural)
        } else if i == 1 {
            Some(AccidentalEnum::Sharp)
        } else if i == 2 {
            Some(AccidentalEnum::DoubleSharp)
        } else if i == 3 {
            Some(AccidentalEnum::TripleSharp)
        } else if i == 4 {
            Some(AccidentalEnum::QuadrupleSharp)
        } else {
            None
        }
    }

    /// The accidental that a text stands for: read as a name, else as a sign,
    /// else as a decimal number, else as musical symbols, else as another name.
    pub open spec fn from_string_spec(s: Seq<char>) -> Option<AccidentalEnum> {
        if AccidentalEnum::from_name_spec(s) is Some {
            AccidentalEnum::from_name_spec(s)
        } else if AccidentalEnum::from_modifier_spec(s) is Some {
            AccidentalEnum::from_modifier_spec(s)
        } else if AccidentalEnum::from_alter_str_spec(s) is Some {
            AccidentalEnum::from_alter_str_spec(s)
        } else if AccidentalEnum::from_unicode_spec(s) is Some {
            AccidentalEnum::from_unicode_spec(s)
        } else {
            AccidentalEnum::from_alternate_name_spec(s)
        }
    }

    /// The accidental that a text stands for: read as a name, else as a sign,
    /// else as a decimal number, else as musical symbols, else as another name.
    pub fn from_string(s: &str) -> (kind: Option<AccidentalEnum>)
        ensures
            kind == AccidentalEnum::from_string_spec(s@),
    {
        let by_name = AccidentalEnum::from_name(s);
        if by_name.is_some() {
            return by_name;
        }
        let by_modifier = AccidentalEnum::from_modifier(s);
        if by_modifier.is_some() {
            return by_modifier;
        }
        let by_alter = AccidentalEnum::from_alter_str(s);
        if by_alter.is_some() {
            return by_alter;
        }
        let by_symbol = AccidentalEnum::from_unicode(s);
        if by_symbol.is_some() {
            return by_symbol;
        }
        AccidentalEnum::from_alternate_name(s)
    }

    /// The accidental's name and its alteration.
    pub fn to_name_and_alter(&self) -> (pair: (String, IntegerType))
        ensures
            pair.0@ == self.to_name_spec(),
            pair.1 == self.alter_spec(),
    {
        (String::from_str(self.to_name()), self.to_alter())
    }
}

/// The accidental of a pitch: one of the thirteen that have a name.
#[derive(Debug, PartialEq, Eq, Clone, Copy, Structural)]
pub struct Accidental {
    pub kind: AccidentalEnum,
}

impl Accidental {
    /// The accidental that a text names, whatever its case.
    pub fn new(specifier: &str) -> (r: ExceptionResult<Self>)
        ensures
            r is Ok <==> AccidentalEnum::from_string_spec(lowercase_of(specifier@)) is Some,
            r is Ok ==> Some(r->Ok_0.kind) == AccidentalEnum::from_string_spec(
                lowercase_of(specifier@),
            ),
            r is Err ==> r->Err_0 is Accidental,
    {
        let lower = to_lowercase(specifier);
        Accidental::from_lowercase(lower.as_str(), specifier)
    }

    /// The accidental that a text in lower case names; `given` is the text
    /// as it was given, for the error's message.
    pub fn from_lowercase(lower: &str, given: &str) -> (r: ExceptionResult<Self>)
        ensures
            r is Ok <==> AccidentalEnum::from_string_spec(lower@) is Some,
            r is Ok ==> Some(r->Ok_0.kind) == AccidentalEnum::from_string_spec(lower@),
            r is Err ==> r->Err_0 is Accidental && r->Err_0.message_spec() == given@
                + " is not a supported accidental type"@,
    {
        match AccidentalEnum::from_string(lower) {
            Some(kind) => Ok(Accidental { kind }),
            None => Err(
                Exception::Accidental(
                    String::from_str(given).concat(" is not a supported accidental type"),
                ),
            ),
        }
    }

    /// The accidental of a whole number of semitones, from -4 to 4.
    pub fn from_int(semitones: i8) -> (r: ExceptionResult<Self>)
        ensures
            r is Ok <==> -4 <= semitones <= 4,
            r is Ok ==> r->Ok_0.alter_spec() == semitones * 1_000_000,
            r is Err ==> r->Err_0 is Accidental,
    {
        match AccidentalEnum::from_int(semitones) {
            Some(kind) => Ok(Accidental { kind }),
            None => Err(
                Exception::Accidental(
                    signed_decimal_text(semitones as i64).concat(" is not a supported accidental type"),
                ),
            ),
        }
    }

    /// The accidental with a given alteration in millionths of a semitone:
    /// there is one for each half semitone up to two and for three and four
    /// semitones, either way.
    pub fn from_alter(alter: IntegerType) -> (r: ExceptionResult<Self>)
        ensures
            r is Ok <==> AccidentalEnum::from_alter_spec(alter as int) is Some,
            r is Ok ==> r->Ok_0.alter_spec() == alter,
            r is Err ==> r->Err_0 is Accidental,
    {
        match AccidentalEnum::from_alter(alter) {
            Some(kind) => Ok(Accidental { kind }),
            None => Err(
                Exception::Accidental(
                    signed_decimal_text(alter).concat(
                        " millionths of a semitone is not a supported accidental type",
                    ),
                ),
            ),
        }
    }

    /// Makes this the accidental that a text names; an unknown name is an
    /// error and changes nothing.
    pub fn set(&mut self, name: &str) -> (r: ExceptionResult<()>)
        ensures
            r is Ok <==> AccidentalEnum::from_string_spec(lowercase_of(name@)) is Some,
            r is Ok ==> Some(final(self).kind) == AccidentalEnum::from_string_spec(
                lowercase_of(name@),
            ),
            r is Err ==> r->Err_0 is Accidental && *final(self) == *old(self),
    {
        match Accidental::new(name) {
            Ok(named) => {
                *self = named;
                Ok(())
            },
            Err(e) => Err(e),
        }
    }

    /// The alteration in millionths of a semitone.
    pub open spec fn alter_spec(&self) -> int {
        self.kind.alter_spec()
    }

    /// The alteration in millionths of a semitone.
    pub fn alter(&self) -> (alter: IntegerType)
        ensures
            alter == self.alter_spec(),
            -4_000_000 <= alter <= 4_000_000,
    {
        self.kind.to_alter()
    }

    pub fn name(&self) -> (text: &'static str)
        ensures
            text@ == self.kind.to_name_spec(),
    {
        self.kind.to_name()
    }

    /// The accidental's sign in a pitch name.
    pub fn modifier(&self) -> (text: &'static str)
        ensures
            text@ == self.kind.to_modifier_spec(),
    {
        self.kind.to_modifier()
    }

    pub fn natural() -> (a: Accidental)
        ensures
            a.kind == AccidentalEnum::Natural,
    {
        Accidental { kind: AccidentalEnum::Natural }
    }

    pub fn flat() -> (a: Accidental)
        ensures
            a.kind == AccidentalEnum::Flat,
    {
        Accidental { kind: AccidentalEnum::Flat }
    }

    pub fn sharp() -> (a: Accidental)
        ensures
            a.kind == AccidentalEnum::Sharp,
    {
        Accidental { kind: AccidentalEnum::Sharp }
    }
}

impl Default for Accidental {
    fn default() -> (a: Accidental)
        ensures
            a.kind == AccidentalEnum::Natural,
    {
        Accidental::natural()
    }
}

} // verus!
