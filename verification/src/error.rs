//! Errors reported by the convolvers.

use vstd::prelude::*;

verus! {

/// What went wrong in a call to a convolver.
#[derive(Debug, Clone, Copy, PartialEq, Eq, Structural)]
pub enum FFTConvolverError {
    /// The impulse response is longer than the initial one passed to `init`.
    ImpulseResponseExceedsCapacity,
    /// `input` and `output` slices have different lengths.
    InputOutputLengthMismatch,
    /// The supplied block size is not a supported power of two (see supported sizes).
    UnsupportedBlockSize,
}

impl FFTConvolverError {
    /// The human-readable description of the error.
    pub fn message(&self) -> (text: &'static str)
        ensures
            *self == FFTConvolverError::ImpulseResponseExceedsCapacity
                ==> text@ == "impulse response exceeds configured capacity"@,
            *self == FFTConvolverError::InputOutputLengthMismatch
                ==> text@ == "input and output buffers must have the same length"@,
            *self == FFTConvolverError::UnsupportedBlockSize
                ==> text@ == "block size is not supported (must be power of 2, from 8 to 2048)"@,
    {
        match self {
            FFTConvolverError::ImpulseResponseExceedsCapacity => {
                "impulse response exceeds configured capacity"
            },
            FFTConvolverError::InputOutputLengthMismatch => {
                "input and output buffers must have the same length"
            },
            FFTConvolverError::UnsupportedBlockSize => {
                "block size is not supported (must be power of 2, from 8 to 2048)"
            },
        }
    }
}

} // verus!
