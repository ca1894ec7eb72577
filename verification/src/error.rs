//! The ways in which an atlas can fail a request.

use vstd::prelude::*;

verus! {

/// Why an atlas could not do what it was asked.
#[derive(Debug, Clone, Copy, PartialEq, Eq, Structural)]
pub enum AtlasError {
    /// A caller-supplied rasterizer gave something else than it gave before
    /// for the same identity. The placements of the atlas can no longer be
    /// trusted to describe the texture; the caller must stop.
    RasterizationMismatch,
    /// A plane has no room for the bitmap, and every glyph that could make
    /// room is needed by the frame in preparation. Growing the plane helps.
    AtlasExhausted,
    /// A plane has no room for the bitmap and is as large as a texture can
    /// be. The caller has to show fewer glyphs at once.
    AtlasAtMaximumSize,
}

impl AtlasError {
    /// Whether the atlas can still be used after this error.
    pub fn is_recoverable(self) -> (recoverable: bool)
        ensures
            recoverable == (self != AtlasError::RasterizationMismatch),
    {
        match self {
            AtlasError::RasterizationMismatch => false,
            AtlasError::AtlasExhausted => true,
            AtlasError::AtlasAtMaximumSize => true,
        }
    }

    /// The sentence that [`AtlasError::message`] gives.
    pub open spec fn spec_message(self) -> Seq<char> {
        match self {
            AtlasError::RasterizationMismatch => "the glyph rasterizer broke its contract"@,
            AtlasError::AtlasExhausted => "the atlas plane is exhausted"@,
            AtlasError::AtlasAtMaximumSize => "the atlas plane is full at its maximum size"@,
        }
    }

    /// A sentence that says what went wrong.
    pub fn message(self) -> (text: &'static str)
        ensures
            text@ == self.spec_message(),
    {
        match self {
            AtlasError::RasterizationMismatch => "the glyph rasterizer broke its contract",
            AtlasError::AtlasExhausted => "the atlas plane is exhausted",
            AtlasError::AtlasAtMaximumSize => "the atlas plane is full at its maximum size",
        }
    }
}

} // verus!
