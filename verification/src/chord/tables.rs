use vstd::prelude::*;

verus! {

/// Where a chord stands in the tables of set classes: how many pitch classes
/// it has, its number among the classes of that size, whether it is the
/// inversion of the class, and the pitch class it was built on.
#[derive(Debug, Clone, Copy)]
pub struct ChordTableAddress {
    pub cardinality: u8,
    pub forte_class: u8,
    pub inversion: i8,
    pub pc_original: Option<u8>,
}

impl ChordTableAddress {
    pub fn new(cardinality: u8, forte_class: u8, inversion: i8, pc_original: Option<u8>) -> (address:
        Self)
        ensures
            address.cardinality == cardinality,
            address.forte_class == forte_class,
            address.inversion == inversion,
            address.pc_original == pc_original,
    {
        Self { cardinality, forte_class, inversion, pc_original }
    }
}

/// Whether a set class is taken as it is, inverted, or is its own inversion.
#[derive(Debug, PartialEq, Eq, Clone, Copy, Hash, Structural)]
pub enum Sign {
    NegativeOne,
    Zero,
    One,
}

impl Sign {
    pub open spec fn from_i8_spec(i: i8) -> Option<Sign> {
        if i == 0 {
            Some(Sign::Zero)
        } else if i == 1 {
            Some(Sign::One)
        } else if i == -1 {
            Some(Sign::NegativeOne)
        } else {
            None
        }
    }

    /// The sign of -1, 0 or 1; no other number has one.
    pub fn from_i8(i: i8) -> (sign: Option<Self>)
        ensures
            sign == Sign::from_i8_spec(i),
    {
        if i == 0 {
            Some(Sign::Zero)
        } else if i == 1 {
            Some(Sign::One)
        } else if i == -1 {
            Some(Sign::NegativeOne)
        } else {
            None
        }
    }

    pub fn as_i8(&self) -> (i: i8)
        ensures
            Sign::from_i8_spec(i) == Some(*self),
    {
        match self {
            Sign::NegativeOne => -1,
            Sign::Zero => 0,
            Sign::One => 1,
        }
    }
}

} // verus!
