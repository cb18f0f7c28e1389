//! The ways in which a render fails.

use vstd::prelude::*;

verus! {

/// Why a render was refused. No stage returns a partial result: the first
/// failure ends the render and is handed to the caller unchanged.
#[derive(Clone, Copy, Debug, PartialEq, Eq, Structural)]
pub enum RenderError {
    /// There is no measurement to choose from.
    EmptyDataset,
    /// A coordinate lies outside the range that stands for finite values.
    InvalidPosition,
    /// The chosen measurement has no samples for one of the ears.
    EmptyResponse,
    /// The input signal, or a response handed to the convolution, has no samples.
    EmptyInput,
    /// The two channels of a stereo signal differ in length.
    LengthMismatch,
}

} // verus!
