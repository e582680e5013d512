//! The ways in which witness generation can fail.

use vstd::prelude::*;

verus! {

/// Why no witness, or no part of one, could be produced.
#[derive(Clone, Copy, Debug, PartialEq, Eq, Structural)]
pub enum WitnessError {
    /// No draw within the retry bound gave a primitive 27th root of unity.
    SamplingExhausted,
    /// None of the three shifts of the input passes the residue test.
    CosetNotFound,
    /// No candidate of the extraction is a root of the value: the value is
    /// not an `E`-th power.
    NotAnEthPower,
}

} // verus!
