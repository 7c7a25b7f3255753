use vstd::prelude::*;

verus! {

pub type IntegerType = i64;

pub type UnsignedIntegerType = u64;

pub type Octave = Option<IntegerType>;

/// CD track level precision.
pub const LIMIT_OFFSET_DENOMINATOR: UnsignedIntegerType = 65535;

/// The octave that a pitch without an octave of its own sounds in.
pub const PITCH_OCTAVE: UnsignedIntegerType = 4;

/// Decimal digits that a pitch-space value keeps after the point.
pub const PITCH_SPACE_SIGNIFICANT_DIGITS: UnsignedIntegerType = 6;

/// One semitone in the fixed-point unit of pitch space and of scores: ten to
/// the power of `PITCH_SPACE_SIGNIFICANT_DIGITS`.
pub const SEMITONE: IntegerType = 1_000_000;

} // verus!
