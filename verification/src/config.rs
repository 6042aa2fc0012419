//! What a renderer is set up with: the size of the viewport and the glyph
//! ramp to draw with.

use vstd::prelude::*;

verus! {

/// Viewport dimensions in character cells and the choice of glyph ramp.
/// A configuration does not change once it is made.
pub struct Config {
    viewport_size: (u16, u16),
    hd: bool,
}

impl Config {
    /// The width and height of the viewport, in character cells.
    pub closed spec fn spec_viewport_size(&self) -> (u16, u16) {
        self.viewport_size
    }

    /// Whether the extended glyph ramp is used.
    pub closed spec fn spec_hd(&self) -> bool {
        self.hd
    }

    /// A configuration with the given viewport and ramp choice.
    pub fn new(viewport_size: (u16, u16), hd: bool) -> (config: Self)
        ensures
            config.spec_viewport_size() == viewport_size,
            config.spec_hd() == hd,
    {
        Self { viewport_size, hd }
    }

    /// The width and height of the viewport, in character cells.
    #[verifier::when_used_as_spec(spec_viewport_size)]
    pub fn viewport_size(&self) -> (size: (u16, u16))
        ensures
            size == self.spec_viewport_size(),
    {
        self.viewport_size
    }

    /// Whether the extended glyph ramp is used.
    #[verifier::when_used_as_spec(spec_hd)]
    pub fn hd(&self) -> (hd: bool)
        ensures
            hd == self.spec_hd(),
    {
        self.hd
    }
}

} // verus!
