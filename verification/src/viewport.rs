//! The visible area of the text of a renderer.

use vstd::prelude::*;

verus! {

/// The size of the screen, in pixels.
#[derive(Debug, Clone, Copy, PartialEq, Eq, Structural)]
pub struct Resolution {
    /// The width of the screen in pixels.
    pub width: u32,
    /// The height of the screen in pixels.
    pub height: u32,
}

/// What the shaders are told of the viewport.
#[derive(Debug, Clone, Copy, PartialEq, Eq, Structural)]
pub struct Params {
    pub screen_resolution: Resolution,
}

/// Controls the visible area of all text for a given renderer. Any text
/// outside of the visible area will be clipped.
///
/// Many projects only ever need a single `Viewport`, but it is possible to
/// have several to render text to specific areas within a window.
#[derive(Debug)]
pub struct Viewport {
    params: Params,
}

impl View for Viewport {
    type V = Params;

    closed spec fn view(&self) -> Params {
        self.params
    }
}

impl Viewport {
    /// Creates a new `Viewport`, of a screen without pixels.
    pub fn new() -> (viewport: Viewport)
        ensures
            viewport@.screen_resolution == (Resolution { width: 0, height: 0 }),
    {
        Viewport { params: Params { screen_resolution: Resolution { width: 0, height: 0 } } }
    }

    /// Updates the `Viewport` with the given `resolution`, and tells whether
    /// that changed anything, in which case the parameters have to be handed
    /// to the shaders again.
    pub fn update(&mut self, resolution: Resolution) -> (changed: bool)
        ensures
            final(self)@.screen_resolution == resolution,
            changed == (old(self)@.screen_resolution != resolution),
    {
        if self.params.screen_resolution != resolution {
            self.params.screen_resolution = resolution;
            true
        } else {
            false
        }
    }

    /// Returns the current resolution of the `Viewport`.
    pub fn resolution(&self) -> (resolution: Resolution)
        ensures
            resolution == self@.screen_resolution,
    {
        self.params.screen_resolution
    }

    /// What the shaders are told of the viewport.
    pub fn params(&self) -> (params: Params)
        ensures
            params == self@,
    {
        self.params
    }
}

} // verus!
