//! What a rasterizer hands back, and whether it is what was asked for.

use vstd::prelude::*;
use crate::error::AtlasError;
use crate::kind::{lemma_channels_match_content, ContentType, Kind};
use crate::placement::Region;

verus! {

/// The number of bytes of a bitmap of `width` by `height` texels of a
/// content type, rows packed.
pub open spec fn bitmap_len(width: u16, height: u16, content_type: ContentType) -> int {
    width * height * content_type.spec_bytes_per_pixel()
}

/// A bitmap as a rasterizer produced it.
#[derive(Debug)]
pub struct RasterizedGlyph {
    /// The texels, row by row, without padding.
    pub data: Vec<u8>,
    /// What the texels mean.
    pub content_type: ContentType,
}

impl RasterizedGlyph {
    /// The bitmap is of the expected content type, if one is expected, and
    /// has as many bytes as a bitmap of `width` by `height` texels of its
    /// content type.
    pub open spec fn matches(
        &self,
        width: u16,
        height: u16,
        expected_type: Option<ContentType>,
    ) -> bool {
        &&& expected_type is Some ==> self.content_type == expected_type->0
        &&& self.data@.len() == bitmap_len(width, height, self.content_type)
    }

    /// Checks the bitmap against the request it answers. A rasterizer that
    /// hands back another content type than expected, or another number of
    /// bytes than `width` by `height` texels take, has broken its contract.
    pub fn validate(&self, width: u16, height: u16, expected_type: Option<ContentType>) -> (result:
        Result<(), AtlasError>)
        ensures
            result is Ok <==> self.matches(width, height, expected_type),
            result is Err ==> result == Err::<(), AtlasError>(AtlasError::RasterizationMismatch),
    {
        if let Some(expected) = expected_type {
            if self.content_type != expected {
                return Err(AtlasError::RasterizationMismatch);
            }
        }
        assert(0 <= width * height <= 0xFFFF * 0xFFFF) by (nonlinear_arith)
            requires
                0 <= width <= 0xFFFF,
                0 <= height <= 0xFFFF,
        ;
        let texels: u64 = (width as u64) * (height as u64);
        let texel_bytes: u64 = self.content_type.bytes_per_pixel() as u64;
        assert(0 <= texels * texel_bytes <= 0xFFFF * 0xFFFF * 4) by (nonlinear_arith)
            requires
                0 <= texels <= 0xFFFF * 0xFFFF,
                0 <= texel_bytes <= 4,
        ;
        let expected_len: u64 = texels * texel_bytes;
        if self.data.len() as u64 != expected_len {
            return Err(AtlasError::RasterizationMismatch);
        }
        Ok(())
    }
}

/// A rasterization of a glyph that resides in `region` of a plane of the
/// given kind can go where the first one went: there is a bitmap, it is of
/// the content type of the plane, and it has the size of the region.
pub open spec fn replay_matches(kind: Kind, region: Region, raster: Option<&RasterizedGlyph>) -> bool {
    &&& raster is Some
    &&& raster->0.matches(region.width, region.height, Some(kind.spec_as_content_type()))
}

/// Checks what a rasterizer produced for a glyph that was rasterized before,
/// when the texture of a plane is filled again. A rasterizer that now hands
/// back nothing, another content type or another size has broken its
/// contract: equal identities rasterize to equal texels.
pub fn check_replay(kind: Kind, region: Region, raster: Option<&RasterizedGlyph>) -> (result: Result<
    (),
    AtlasError,
>)
    ensures
        result is Ok <==> replay_matches(kind, region, raster),
        result is Err ==> result == Err::<(), AtlasError>(AtlasError::RasterizationMismatch),
{
    match raster {
        None => Err(AtlasError::RasterizationMismatch),
        Some(bitmap) => bitmap.validate(region.width, region.height, Some(kind.as_content_type())),
    }
}

/// A bitmap that passed the check for a region of a plane holds exactly the
/// rows that are copied to the region: as many as the region is high, each
/// of the stride that [`bytes_per_row`] gives.
pub proof fn lemma_checked_bitmap_fills_rows(kind: Kind, region: Region, bitmap: RasterizedGlyph)
    requires
        bitmap.matches(region.width, region.height, Some(kind.spec_as_content_type())),
    ensures
        bitmap.data@.len() == region.height * (region.width * kind.spec_num_channels()),
{
    lemma_channels_match_content(kind);
    assert(region.width * region.height * kind.spec_num_channels() == region.height * (region.width
        * kind.spec_num_channels())) by (nonlinear_arith);
}

/// The number of bytes from one row of a bitmap to the next, for a bitmap
/// of `width` texels in a plane of the given kind.
pub fn bytes_per_row(kind: Kind, width: u16) -> (bytes: usize)
    ensures
        bytes == width * kind.spec_num_channels(),
{
    let channels = kind.num_channels();
    assert(0 <= width * channels <= 0xFFFF * 4) by (nonlinear_arith)
        requires
            0 <= width <= 0xFFFF,
            0 <= channels <= 4,
    ;
    (width as usize) * channels
}

} // verus!
