//! Enharmonic respelling of pitch sequences: a pitch model with bounded
//! enharmonic neighbours, an interval engine, exact Pythagorean ratios, a
//! dissonance score in fixed point, and an exhaustive and a greedy search
//! that minimise it.

pub mod common;
pub mod defaults;
pub mod duration;
pub mod exception;
pub mod fraction_pow;
pub mod stepname;
pub mod pitch;
pub mod interval;
pub mod key;
pub mod note;
pub mod chord;
pub mod polyrhythm;
pub mod tuningsystem;
