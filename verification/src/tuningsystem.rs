use crate::defaults::UnsignedIntegerType;
use vstd::prelude::*;

verus! {

/// The tunings that a scale can be sounded in.
pub enum TuningSystem {
    EqualTemperament { octave_size: UnsignedIntegerType },
    RecursiveEqualTemperament { octave_size: UnsignedIntegerType },
    WholeTone,
    QuarterTone,
    JustIntonation,
    JustIntonation24,
    PythagoreanTuning,
    FiveLimit,
    ElevenLimit,
    FortyThreeTone,
    // ethnic scales
    Javanese,
    Thai,
    Indian,
    IndianAlt,
    Indian22,
}

} // verus!
