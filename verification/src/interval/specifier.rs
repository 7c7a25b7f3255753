use crate::common::stringtools::str_eq;
use crate::defaults::IntegerType;
use crate::exception::{Exception, ExceptionResult};
use vstd::prelude::*;
use vstd::string::*;

verus! {

/// The quality of a diatonic interval.
#[derive(Debug, PartialEq, Eq, Clone, Copy, Structural)]
pub enum Specifier {
    Perfect,
    Major,
    Minor,
    Augmented,
    Diminished,
    DoubleAugmented,
    DoubleDiminished,
    TripleAugmented,
    TripleDiminished,
    QuadrupleAugmented,
    QuadrupleDiminished,
}

impl Specifier {
    pub open spec fn nice_name_spec(&self) -> Seq<char> {
        match self {
            Specifier::Perfect => "Perfect"@,
            Specifier::Major => "Major"@,
            Specifier::Minor => "Minor"@,
            Specifier::Augmented => "Augmented"@,
            Specifier::Diminished => "Diminished"@,
            Specifier::DoubleAugmented => "Double Augmented"@,
            Specifier::DoubleDiminished => "Double Diminished"@,
            Specifier::TripleAugmented => "Triple Augmented"@,
            Specifier::TripleDiminished => "Triple Diminished"@,
            Specifier::QuadrupleAugmented => "Quadruple Augmented"@,
            Specifier::QuadrupleDiminished => "Quadruple Diminished"@,
        }
    }

    /// Returns a human-friendly name for the specifier.
    pub fn nice_name(&self) -> (name: String)
        ensures
            name@ == self.nice_name_spec(),
    {
        match self {
            Specifier::Perfect => String::from_str("Perfect"),
            Specifier::Major => String::from_str("Major"),
            Specifier::Minor => String::from_str("Minor"),
            Specifier::Augmented => String::from_str("Augmented"),
            Specifier::Diminished => String::from_str("Diminished"),
            Specifier::DoubleAugmented => String::from_str("Double Augmented"),
            Specifier::DoubleDiminished => String::from_str("Double Diminished"),
            Specifier::TripleAugmented => String::from_str("Triple Augmented"),
            Specifier::TripleDiminished => String::from_str("Triple Diminished"),
            Specifier::QuadrupleAugmented => String::from_str("Quadruple Augmented"),
            Specifier::QuadrupleDiminished => String::from_str("Quadruple Diminished"),
        }
    }

    /// The specifier that a text names, by its full name or by its letters.
    pub open spec fn parse_spec(remain: Seq<char>) -> Option<Specifier> {
        if remain == "Perfect"@ || remain == "p"@ || remain == "P"@ {
            Some(Specifier::Perfect)
        } else if remain == "Major"@ || remain == "M"@ {
            Some(Specifier::Major)
        } else if remain == "Minor"@ || remain == "m"@ {
            Some(Specifier::Minor)
        } else if remain == "Augmented"@ || remain == "a"@ {
            Some(Specifier::Augmented)
        } else if remain == "Diminished"@ || remain == "d"@ {
            Some(Specifier::Diminished)
        } else if remain == "Double Augmented"@ || remain == "aa"@ {
            Some(Specifier::DoubleAugmented)
        } else if remain == "Double Diminished"@ || remain == "dd"@ {
            Some(Specifier::DoubleDiminished)
        } else if remain == "Triple Augmented"@ || remain == "aaa"@ {
            Some(Specifier::TripleAugmented)
        } else if remain == "Triple Diminished"@ || remain == "ddd"@ {
            Some(Specifier::TripleDiminished)
        } else if remain == "Quadruple Augmented"@ || remain == "aaaa"@ {
            Some(Specifier::QuadrupleAugmented)
        } else if remain == "Quadruple Diminished"@ || remain == "dddd"@ {
            Some(Specifier::QuadrupleDiminished)
        } else {
            None
        }
    }

    /// The specifier that a text names, by its full name or by its letters;
    /// any other text is an error.
    pub fn parse(remain: &str) -> (r: ExceptionResult<Specifier>)
        ensures
            r is Ok <==> Specifier::parse_spec(remain@) is Some,
            r is Ok ==> Some(r->Ok_0) == Specifier::parse_spec(remain@),
            r is Err ==> r->Err_0 is Interval,
    {
        if str_eq(remain, "Perfect") || str_eq(remain, "p") || str_eq(remain, "P") {
            Ok(Specifier::Perfect)
        } else if str_eq(remain, "Major") || str_eq(remain, "M") {
            Ok(Specifier::Major)
        } else if str_eq(remain, "Minor") || str_eq(remain, "m") {
            Ok(Specifier::Minor)
        } else if str_eq(remain, "Augmented") || str_eq(remain, "a") {
            Ok(Specifier::Augmented)
        } else if str_eq(remain, "Diminished") || str_eq(remain, "d") {
            Ok(Specifier::Diminished)
        } else if str_eq(remain, "Double Augmented") || str_eq(remain, "aa") {
            Ok(Specifier::DoubleAugmented)
        } else if str_eq(remain, "Double Diminished") || str_eq(remain, "dd") {
            Ok(Specifier::DoubleDiminished)
        } else if str_eq(remain, "Triple Augmented") || str_eq(remain, "aaa") {
            Ok(Specifier::TripleAugmented)
        } else if str_eq(remain, "Triple Diminished") || str_eq(remain, "ddd") {
            Ok(Specifier::TripleDiminished)
        } else if str_eq(remain, "Quadruple Augmented") || str_eq(remain, "aaaa") {
            Ok(Specifier::QuadrupleAugmented)
        } else if str_eq(remain, "Quadruple Diminished") || str_eq(remain, "dddd") {
            Ok(Specifier::QuadrupleDiminished)
        } else {
            Err(Exception::Interval(String::from_str("Invalid specifier: ").concat(remain)))
        }
    }

    /// Semitones above the perfect interval of the same size; major and minor
    /// intervals have no perfect one to stand above.
    pub open spec fn semitones_above_perfect_spec(&self) -> Option<int> {
        match self {
            Specifier::Perfect => Some(0),
            Specifier::Major => None,
            Specifier::Minor => None,
            Specifier::Augmented => Some(1),
            Specifier::Diminished => Some(-1),
            Specifier::DoubleAugmented => Some(2),
            Specifier::DoubleDiminished => Some(-2),
            Specifier::TripleAugmented => Some(3),
            Specifier::TripleDiminished => Some(-3),
            Specifier::QuadrupleAugmented => Some(4),
            Specifier::QuadrupleDiminished => Some(-4),
        }
    }

    /// Semitones above the perfect interval of the same size; major and minor
    /// intervals have no perfect one to stand above.
    pub fn semitones_above_perfect(&self) -> (semitones: Option<IntegerType>)
        ensures
            semitones is Some <==> self.semitones_above_perfect_spec() is Some,
            semitones is Some ==> semitones->Some_0 == self.semitones_above_perfect_spec()->Some_0,
    {
        match self {
            Specifier::Perfect => Some(0),
            Specifier::Major => None,
            Specifier::Minor => None,
            Specifier::Augmented => Some(1),
            Specifier::Diminished => Some(-1),
            Specifier::DoubleAugmented => Some(2),
            Specifier::DoubleDiminished => Some(-2),
            Specifier::TripleAugmented => Some(3),
            Specifier::TripleDiminished => Some(-3),
            Specifier::QuadrupleAugmented => Some(4),
            Specifier::QuadrupleDiminished => Some(-4),
        }
    }

    /// The specifier of an interval that lies `offset` semitones above the
    /// perfect interval of its size, if there is one.
    pub open spec fn from_semitones_above_perfect_spec(offset: int) -> Option<Specifier> {
        if offset == -4 {
            Some(Specifier::QuadrupleDiminished)
        } else if offset == -3 {
            Some(Specifier::TripleDiminished)
        } else if offset == -2 {
            Some(Specifier::DoubleDiminished)
        } else if offset == -1 {
            Some(Specifier::Diminished)
        } else if offset == 0 {
            Some(Specifier::Perfect)
        } else if offset == 1 {
            Some(Specifier::Augmented)
        } else if offset == 2 {
            Some(Specifier::DoubleAugmented)
        } else if offset == 3 {
            Some(Specifier::TripleAugmented)
        } else if offset == 4 {
            Some(Specifier::QuadrupleAugmented)
        } else {
            None
        }
    }

    /// The specifier of an interval that lies `offset` semitones above the
    /// perfect interval of its size, if there is one.
    pub fn from_semitones_above_perfect(offset: i128) -> (specifier: Option<Specifier>)
        ensures
            specifier == Specifier::from_semitones_above_perfect_spec(offset as int),
            specifier is Some ==> specifier->Some_0.semitones_above_perfect_spec() == Some(offset as int),
    {
        if offset == -4 {
            Some(Specifier::QuadrupleDiminished)
        } else if offset == -3 {
            Some(Specifier::TripleDiminished)
        } else if offset == -2 {
            Some(Specifier::DoubleDiminished)
        } else if offset == -1 {
            Some(Specifier::Diminished)
        } else if offset == 0 {
            Some(Specifier::Perfect)
        } else if offset == 1 {
            Some(Specifier::Augmented)
        } else if offset == 2 {
            Some(Specifier::DoubleAugmented)
        } else if offset == 3 {
            Some(Specifier::TripleAugmented)
        } else if offset == 4 {
            Some(Specifier::QuadrupleAugmented)
        } else {
            None
        }
    }

    /// Semitones above the major interval of the same size; a perfect interval
    /// has no major one to stand above.
    pub open spec fn semitones_above_major_spec(&self) -> Option<int> {
        match self {
            Specifier::Perfect => None,
            Specifier::Major => Some(0),
            Specifier::Minor => Some(-1),
            Specifier::Augmented => Some(1),
            Specifier::Diminished => Some(-2),
            Specifier::DoubleAugmented => Some(2),
            Specifier::DoubleDiminished => Some(-3),
            Specifier::TripleAugmented => Some(3),
            Specifier::TripleDiminished => Some(-4),
            Specifier::QuadrupleAugmented => Some(4),
            Specifier::QuadrupleDiminished => Some(-5),
        }
    }

    /// Semitones above the major interval of the same size; a perfect interval
    /// has no major one to stand above.
    pub fn semitones_above_major(&self) -> (semitones: Option<IntegerType>)
        ensures
            semitones is Some <==> self.semitones_above_major_spec() is Some,
            semitones is Some ==> semitones->Some_0 == self.semitones_above_major_spec()->Some_0,
    {
        match self {
            Specifier::Perfect => None,
            Specifier::Major => Some(0),
            Specifier::Minor => Some(-1),
            Specifier::Augmented => Some(1),
            Specifier::Diminished => Some(-2),
            Specifier::DoubleAugmented => Some(2),
            Specifier::DoubleDiminished => Some(-3),
            Specifier::TripleAugmented => Some(3),
            Specifier::TripleDiminished => Some(-4),
            Specifier::QuadrupleAugmented => Some(4),
            Specifier::QuadrupleDiminished => Some(-5),
        }
    }

    /// The specifier of an interval that lies `offset` semitones above the
    /// major interval of its size, if there is one.
    pub open spec fn from_semitones_above_major_spec(offset: int) -> Option<Specifier> {
        if offset == -5 {
            Some(Specifier::QuadrupleDiminished)
        } else if offset == -4 {
            Some(Specifier::TripleDiminished)
        } else if offset == -3 {
            Some(Specifier::DoubleDiminished)
        } else if offset == -2 {
            Some(Specifier::Diminished)
        } else if offset == -1 {
            Some(Specifier::Minor)
        } else if offset == 0 {
            Some(Specifier::Major)
        } else if offset == 1 {
            Some(Specifier::Augmented)
        } else if offset == 2 {
            Some(Specifier::DoubleAugmented)
        } else if offset == 3 {
            Some(Specifier::TripleAugmented)
        } else if offset == 4 {
            Some(Specifier::QuadrupleAugmented)
        } else {
            None
        }
    }

    /// The specifier of an interval that lies `offset` semitones above the
    /// major interval of its size, if there is one.
    pub fn from_semitones_above_major(offset: i128) -> (specifier: Option<Specifier>)
        ensures
            specifier == Specifier::from_semitones_above_major_spec(offset as int),
            specifier is Some ==> specifier->Some_0.semitones_above_major_spec() == Some(offset as int),
    {
        if offset == -5 {
            Some(Specifier::QuadrupleDiminished)
        } else if offset == -4 {
            Some(Specifier::TripleDiminished)
        } else if offset == -3 {
            Some(Specifier::DoubleDiminished)
        } else if offset == -2 {
            Some(Specifier::Diminished)
        } else if offset == -1 {
            Some(Specifier::Minor)
        } else if offset == 0 {
            Some(Specifier::Major)
        } else if offset == 1 {
            Some(Specifier::Augmented)
        } else if offset == 2 {
            Some(Specifier::DoubleAugmented)
        } else if offset == 3 {
            Some(Specifier::TripleAugmented)
        } else if offset == 4 {
            Some(Specifier::QuadrupleAugmented)
        } else {
            None
        }
    }
}

} // verus!
