use crate::defaults::IntegerType;
use vstd::prelude::*;
use vstd::string::*;

verus! {

/// Which way an interval goes.
#[derive(Debug, PartialEq, Eq, Clone, Copy, Structural)]
pub enum Direction {
    Descending,
    Oblique,
    Ascending,
}

impl Direction {
    /// -1 for descending, 0 for oblique, 1 for ascending.
    pub open spec fn as_int_spec(&self) -> int {
        match self {
            Direction::Descending => -1,
            Direction::Oblique => 0,
            Direction::Ascending => 1,
        }
    }

    pub open spec fn term_spec(&self) -> Seq<char> {
        match self {
            Direction::Descending => "Descending"@,
            Direction::Oblique => "Oblique"@,
            Direction::Ascending => "Ascending"@,
        }
    }

    /// The direction of a signed size: that of its sign.
    pub open spec fn of_sign(n: int) -> Direction {
        if n < 0 {
            Direction::Descending
        } else if n == 0 {
            Direction::Oblique
        } else {
            Direction::Ascending
        }
    }

    /// -1 for descending, 0 for oblique, 1 for ascending.
    pub fn as_int(&self) -> (n: IntegerType)
        ensures
            n == self.as_int_spec(),
    {
        match self {
            Direction::Descending => -1,
            Direction::Oblique => 0,
            Direction::Ascending => 1,
        }
    }

    /// The direction in a word.
    pub fn term(&self) -> (word: String)
        ensures
            word@ == self.term_spec(),
    {
        match self {
            Direction::Descending => String::from_str("Descending"),
            Direction::Oblique => String::from_str("Oblique"),
            Direction::Ascending => String::from_str("Ascending"),
        }
    }
}

} // verus!
