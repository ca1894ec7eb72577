//! Content types of glyph bitmaps and the texel formats that store them.

use vstd::prelude::*;

verus! {

/// What the texels of a rasterized glyph mean.
#[derive(Debug, Clone, Copy, PartialEq, Eq, Hash, Structural)]
pub enum ContentType {
    /// Four channels per texel.
    Color,
    /// One coverage channel per texel.
    Mask,
}

impl ContentType {
    pub open spec fn spec_bytes_per_pixel(self) -> usize {
        match self {
            ContentType::Color => 4,
            ContentType::Mask => 1,
        }
    }

    /// The number of bytes one texel of this content type occupies.
    #[verifier::when_used_as_spec(spec_bytes_per_pixel)]
    pub fn bytes_per_pixel(self) -> (n: usize)
        ensures
            n == self.spec_bytes_per_pixel(),
    {
        match self {
            ContentType::Color => 4,
            ContentType::Mask => 1,
        }
    }
}

/// The color mode of a text atlas.
#[derive(Debug, Clone, Copy, PartialEq, Eq, Structural)]
pub enum ColorMode {
    /// Accurate color management.
    ///
    /// Colored glyphs live in a proper sRGB texture, which gives physically
    /// accurate blending when rendering.
    Accurate,
    /// Web color management.
    ///
    /// Colored glyphs are stored as sRGB values in a linear texture, the
    /// strategy browsers and most UI toolkits use. Blending is not physically
    /// accurate but matches what those toolkits produce.
    Web,
}

impl ColorMode {
    /// Whether the color plane of an atlas in this mode is sRGB-encoded.
    pub open spec fn spec_srgb(self) -> bool {
        self == ColorMode::Accurate
    }

    /// Whether the color plane of an atlas in this mode is sRGB-encoded.
    #[verifier::when_used_as_spec(spec_srgb)]
    pub fn srgb(self) -> (b: bool)
        ensures
            b == self.spec_srgb(),
    {
        match self {
            ColorMode::Accurate => true,
            ColorMode::Web => false,
        }
    }
}

/// The texel format of an atlas texture.
#[derive(Debug, Clone, Copy, PartialEq, Eq, Structural)]
pub enum TextureFormat {
    /// One unsigned normalized 8-bit channel.
    R8Unorm,
    /// Four unsigned normalized 8-bit channels, linear.
    Rgba8Unorm,
    /// Four unsigned normalized 8-bit channels, sRGB-encoded.
    Rgba8UnormSrgb,
}

/// The kind of one atlas plane: what it stores and how it is encoded.
#[derive(Debug, Clone, Copy, PartialEq, Eq, Structural)]
pub enum Kind {
    Mask,
    Color { srgb: bool },
}

impl Kind {
    pub open spec fn spec_num_channels(self) -> usize {
        match self {
            Kind::Mask => 1,
            Kind::Color { .. } => 4,
        }
    }

    /// The number of 8-bit channels per texel of a plane of this kind.
    #[verifier::when_used_as_spec(spec_num_channels)]
    pub fn num_channels(self) -> (n: usize)
        ensures
            n == self.spec_num_channels(),
    {
        match self {
            Kind::Mask => 1,
            Kind::Color { .. } => 4,
        }
    }

    pub open spec fn spec_texture_format(self) -> TextureFormat {
        match self {
            Kind::Mask => TextureFormat::R8Unorm,
            Kind::Color { srgb } => if srgb {
                TextureFormat::Rgba8UnormSrgb
            } else {
                TextureFormat::Rgba8Unorm
            },
        }
    }

    /// The texel format of the texture that backs a plane of this kind.
    #[verifier::when_used_as_spec(spec_texture_format)]
    pub fn texture_format(self) -> (format: TextureFormat)
        ensures
            format == self.spec_texture_format(),
    {
        match self {
            Kind::Mask => TextureFormat::R8Unorm,
            Kind::Color { srgb } => {
                if srgb {
                    TextureFormat::Rgba8UnormSrgb
                } else {
                    TextureFormat::Rgba8Unorm
                }
            },
        }
    }

    pub open spec fn spec_as_content_type(&self) -> ContentType {
        match self {
            Kind::Mask => ContentType::Mask,
            Kind::Color { .. } => ContentType::Color,
        }
    }

    /// The content type of the glyphs a plane of this kind holds.
    #[verifier::when_used_as_spec(spec_as_content_type)]
    pub fn as_content_type(&self) -> (content_type: ContentType)
        ensures
            content_type == self.spec_as_content_type(),
    {
        match self {
            Kind::Mask => ContentType::Mask,
            Kind::Color { .. } => ContentType::Color,
        }
    }

    /// The kind of the plane that holds glyphs of `content_type` in an atlas
    /// with the given color mode.
    pub open spec fn spec_for_content(content_type: ContentType, color_mode: ColorMode) -> Kind {
        match content_type {
            ContentType::Mask => Kind::Mask,
            ContentType::Color => Kind::Color { srgb: color_mode.spec_srgb() },
        }
    }

    /// The kind of the plane that holds glyphs of `content_type` in an atlas
    /// with the given color mode.
    #[verifier::when_used_as_spec(spec_for_content)]
    pub fn for_content(content_type: ContentType, color_mode: ColorMode) -> (kind: Kind)
        ensures
            kind == Kind::spec_for_content(content_type, color_mode),
    {
        match content_type {
            ContentType::Mask => Kind::Mask,
            ContentType::Color => Kind::Color { srgb: color_mode.srgb() },
        }
    }
}

/// A plane of any kind stores texels whose size is that of its content type.
pub proof fn lemma_channels_match_content(kind: Kind)
    ensures
        kind.spec_num_channels() == kind.spec_as_content_type().spec_bytes_per_pixel(),
        kind.spec_texture_format() == TextureFormat::R8Unorm <==> kind == Kind::Mask,
{
}

} // verus!
