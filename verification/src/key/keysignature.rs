use super::{Key, Mode};
use crate::common::stringtools::str_eq;
use crate::defaults::IntegerType;
use vstd::prelude::*;

verus! {

/// A key signature: the number of its sharps, negative for flats.
#[derive(Debug, PartialEq, Eq, Clone, Copy, Structural)]
pub struct KeySignature {
    pub sharps: IntegerType,
}

impl KeySignature {
    pub fn new(sharps: IntegerType) -> (signature: Self)
        ensures
            signature.sharps == sharps,
    {
        Self { sharps }
    }

    /// The key with this signature in a mode: the minor key for "minor", and
    /// the major key for anything else.
    pub fn as_key(&self, mode: &str) -> (key: Key)
        ensures
            key.sharps == self.sharps,
            key.mode == if mode@ == "minor"@ {
                Mode::Minor
            } else {
                Mode::Major
            },
    {
        if str_eq(mode, "minor") {
            Key { sharps: self.sharps, mode: Mode::Minor }
        } else {
            Key { sharps: self.sharps, mode: Mode::Major }
        }
    }
}

} // verus!
