use vstd::prelude::*;

verus! {

/// The ways in which producing an image for one request can fail.
#[derive(Debug, Clone, Copy, PartialEq, Eq)]
pub enum ImageError {
    /// The vector document could not be parsed, rendered or encoded, or its
    /// size is degenerate.
    Render,
    /// The pixel buffer holds no pixel at all.
    DegenerateImage,
    /// The brightening loop reached its pass limit without the image
    /// becoming bright enough.
    IterationLimitExceeded,
}

} // verus!
