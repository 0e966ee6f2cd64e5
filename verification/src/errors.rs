//! The error kinds that construction can report. Prediction itself is
//! infallible once a predictor and a non-empty sentence exist.

use vstd::prelude::*;

verus! {

/// Why a model was rejected or a sentence could not be built.
#[derive(Clone, Copy, Debug, PartialEq, Eq, Structural)]
pub enum VaporettoError {
    /// A weight vector's length is inconsistent with its pattern, or a
    /// pattern is empty.
    InvalidModel,
    /// The input text holds no characters.
    InvalidInput,
}

} // verus!
