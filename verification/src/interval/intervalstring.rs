use vstd::prelude::*;
use vstd::string::*;

verus! {

/// The two steps of an enharmonic walk: a diminished second up, or one down.
#[derive(Debug, PartialEq, Eq, Clone, Copy, Hash, Structural)]
pub enum IntervalString {
    Up,
    Down,
}

impl IntervalString {
    pub open spec fn string_spec(&self) -> Seq<char> {
        match self {
            IntervalString::Up => "d2"@,
            IntervalString::Down => "-d2"@,
        }
    }

    /// The interval's name.
    pub fn string(self) -> (name: String)
        ensures
            name@ == self.string_spec(),
    {
        let x = match self {
            IntervalString::Up => "d2",
            IntervalString::Down => "-d2",
        };
        String::from_str(x)
    }
}

} // verus!
