//! Glyph identities and the integer keys under which an atlas files them.

use vstd::prelude::*;

verus! {

/// One of four horizontal or vertical sub-texel offsets at which a glyph can
/// be rasterized.
#[derive(Debug, Clone, Copy, PartialEq, Eq, Hash, Structural)]
pub enum SubpixelBin {
    Zero,
    One,
    Two,
    Three,
}

impl SubpixelBin {
    pub open spec fn spec_index(self) -> u8 {
        match self {
            SubpixelBin::Zero => 0,
            SubpixelBin::One => 1,
            SubpixelBin::Two => 2,
            SubpixelBin::Three => 3,
        }
    }

    /// The position of this bin among the four, from 0 to 3.
    #[verifier::when_used_as_spec(spec_index)]
    pub fn index(self) -> (i: u8)
        ensures
            i == self.spec_index(),
            i < 4,
    {
        match self {
            SubpixelBin::Zero => 0,
            SubpixelBin::One => 1,
            SubpixelBin::Two => 2,
            SubpixelBin::Three => 3,
        }
    }
}

/// What makes two rasterizations the same bitmap: a glyph of a font at a size
/// and sub-texel offset, or the output of a caller-supplied rasterizer for a
/// given request. Equal identities always rasterize to the same texels.
#[derive(Debug, Clone, Copy, PartialEq, Eq, Hash, Structural)]
pub enum GlyphIdentity {
    /// A glyph of a font, shaped at a size.
    Text { font_id: u64, glyph_id: u16, size_bits: u32, x_bin: SubpixelBin, y_bin: SubpixelBin },
    /// A glyph drawn by a caller-supplied rasterizer at a requested size.
    Custom { glyph_id: u16, width: u16, height: u16, x_bin: SubpixelBin, y_bin: SubpixelBin },
}

impl GlyphIdentity {
    /// The two sub-texel bins of the identity, as a number below 16.
    pub open spec fn spec_bins(self) -> int {
        match self {
            GlyphIdentity::Text { x_bin, y_bin, .. } => x_bin.spec_index() + 4 * y_bin.spec_index(),
            GlyphIdentity::Custom { x_bin, y_bin, .. } => x_bin.spec_index() + 4
                * y_bin.spec_index(),
        }
    }

    /// The identity as one integer: a tag bit, then four bits of bins, then the
    /// remaining fields, each in a bit range of its own.
    pub open spec fn key_value(self) -> int {
        match self {
            GlyphIdentity::Text { font_id, glyph_id, size_bits, .. } => 2 * (self.spec_bins() + 16
                * (glyph_id + 0x1_0000 * (size_bits + 0x1_0000_0000 * font_id))),
            GlyphIdentity::Custom { glyph_id, width, height, .. } => 1 + 2 * (self.spec_bins() + 16
                * (glyph_id + 0x1_0000 * (width + 0x1_0000 * height))),
        }
    }

    pub open spec fn spec_key(self) -> u128 {
        self.key_value() as u128
    }

    /// The integer under which an atlas files this identity.
    #[verifier::when_used_as_spec(spec_key)]
    pub fn key(self) -> (k: u128)
        ensures
            k == self.spec_key(),
            k == self.key_value(),
    {
        match self {
            GlyphIdentity::Text { font_id, glyph_id, size_bits, x_bin, y_bin } => {
                let bins: u128 = x_bin.index() as u128 + 4 * (y_bin.index() as u128);
                let high: u128 = size_bits as u128 + 0x1_0000_0000 * (font_id as u128);
                2 * (bins + 16 * (glyph_id as u128 + 0x1_0000 * high))
            },
            GlyphIdentity::Custom { glyph_id, width, height, x_bin, y_bin } => {
                let bins: u128 = x_bin.index() as u128 + 4 * (y_bin.index() as u128);
                let high: u128 = width as u128 + 0x1_0000 * (height as u128);
                1 + 2 * (bins + 16 * (glyph_id as u128 + 0x1_0000 * high))
            },
        }
    }
}

/// The integer of an identity fits the key type.
pub proof fn lemma_key_in_range(a: GlyphIdentity)
    ensures
        0 <= a.key_value() < 0x20_0000_0000_0000_0000_0000_0000_0000,
        a.spec_key() == a.key_value(),
{
}

/// Different identities never share a key.
pub proof fn lemma_key_injective(a: GlyphIdentity, b: GlyphIdentity)
    requires
        a.spec_key() == b.spec_key(),
    ensures
        a == b,
{
    lemma_key_in_range(a);
    lemma_key_in_range(b);
    match (a, b) {
        (
            GlyphIdentity::Text { font_id: f1, glyph_id: g1, size_bits: s1, x_bin: x1, y_bin: y1 },
            GlyphIdentity::Text { font_id: f2, glyph_id: g2, size_bits: s2, x_bin: x2, y_bin: y2 },
        ) => {
            assert(a.spec_bins() == b.spec_bins());
            assert(x1.spec_index() == x2.spec_index());
            assert(g1 == g2);
            assert(s1 == s2);
        },
        (
            GlyphIdentity::Custom { glyph_id: g1, width: w1, height: h1, x_bin: x1, y_bin: y1 },
            GlyphIdentity::Custom { glyph_id: g2, width: w2, height: h2, x_bin: x2, y_bin: y2 },
        ) => {
            assert(a.spec_bins() == b.spec_bins());
            assert(x1.spec_index() == x2.spec_index());
            assert(g1 == g2);
            assert(w1 == w2);
        },
        _ => {},
    }
}

} // verus!
