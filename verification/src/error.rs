use vstd::prelude::*;

verus! {

/// Ways the pipeline can fail on bad input data. Failures are local to the
/// offending image or row; no failure is fatal to the process.
#[derive(Clone, Copy, Debug, PartialEq, Eq, Structural)]
pub enum Error {
    /// The raw bytes of an image could not be decoded.
    ImageDecodeError,
    /// An image has zero width or zero height.
    InvalidImageDimensions,
    /// An internal tensor-shape invariant was violated.
    ShapeMismatch,
    /// The vocabulary file was missing or unreadable.
    VocabularyLoadError,
    /// The external inference engine failed opaquely.
    InferenceError,
}

} // verus!
