use vstd::prelude::*;

verus! {

/// How long a note lasts. Nothing is known of it yet but that it is there.
#[derive(Debug, Clone, Copy, PartialEq, Eq, Structural)]
pub struct Duration {}

impl Duration {
    pub fn new() -> (duration: Self)
        ensures
            duration == (Duration {  }),
    {
        Duration {  }
    }
}

} // verus!
