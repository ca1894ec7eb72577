//! Where a glyph bitmap sits in the texture of a plane.

use vstd::prelude::*;
use crate::glyph::GlyphIdentity;
use crate::packer::Rect;

verus! {

/// A rectangle of texels in the texture of a plane: the top-left corner and
/// the size of the bitmap stored there.
#[derive(Debug, Clone, Copy, PartialEq, Eq, Structural)]
pub struct Region {
    pub x: u16,
    pub y: u16,
    pub width: u16,
    pub height: u16,
}

impl Region {
    /// The region lies inside the texture of a plane of the given side.
    pub open spec fn within(self, side: int) -> bool {
        self.x + self.width <= side && self.y + self.height <= side
    }

    /// The two regions have no texel in common.
    pub open spec fn disjoint(self, other: Region) -> bool {
        ||| self.x + self.width <= other.x
        ||| other.x + other.width <= self.x
        ||| self.y + self.height <= other.y
        ||| other.y + other.height <= self.y
    }

    /// The region has at least one texel and lies in the top-left corner of
    /// the packer rectangle `rect`.
    pub open spec fn inside(self, rect: Rect) -> bool {
        &&& self.width > 0 && self.height > 0
        &&& self.x == rect.min_x && self.y == rect.min_y
        &&& self.x + self.width <= rect.max_x
        &&& self.y + self.height <= rect.max_y
    }

    /// A bitmap of `width` by `height` texels can be put in the top-left
    /// corner of `rect`: it has texels, the rectangle is large enough for
    /// it, and the corner has coordinates that a region can hold.
    pub open spec fn can_take(rect: Rect, width: u16, height: u16) -> bool {
        &&& width > 0 && height > 0
        &&& 0 <= rect.min_x <= u16::MAX
        &&& 0 <= rect.min_y <= u16::MAX
        &&& rect.min_x + width <= rect.max_x
        &&& rect.min_y + height <= rect.max_y
    }

    /// The region of a bitmap of `width` by `height` texels in the top-left
    /// corner of the packer rectangle `rect`, if the bitmap can be put
    /// there.
    pub fn in_rect(rect: Rect, width: u16, height: u16) -> (region: Option<Region>)
        ensures
            region is Some <==> Region::can_take(rect, width, height),
            region is Some ==> region->0.inside(rect) && region->0.width == width
                && region->0.height == height,
    {
        if width == 0 || height == 0 {
            return None;
        }
        if rect.min_x < 0 || rect.min_x > 0xFFFF || rect.min_y < 0 || rect.min_y > 0xFFFF {
            return None;
        }
        let across: i64 = rect.max_x as i64 - rect.min_x as i64;
        let down: i64 = rect.max_y as i64 - rect.min_y as i64;
        if across < width as i64 || down < height as i64 {
            return None;
        }
        Some(Region { x: rect.min_x as u16, y: rect.min_y as u16, width, height })
    }
}

/// Where a glyph resides in a plane. A bitmap without texels has no region,
/// and is remembered all the same so that it is not rasterized again.
#[derive(Debug, Clone, Copy, PartialEq, Eq, Structural)]
pub struct Placement {
    /// The texels of the bitmap, if it has any.
    pub region: Option<Region>,
    /// The number of 8-bit channels of each texel of the plane.
    pub channels: usize,
}

/// What a plane remembers of a glyph that was made resident.
#[derive(Debug, Clone, Copy, PartialEq, Eq, Structural)]
pub struct CachedGlyph {
    pub identity: GlyphIdentity,
    pub placement: Placement,
    /// The id under which the packer knows the rectangle that holds the
    /// region, for a glyph that has one.
    pub atlas_id: Option<u32>,
}

/// Regions that lie in packer rectangles without a common texel have no
/// common texel either.
pub proof fn lemma_regions_disjoint(a: Region, b: Region, ra: Rect, rb: Rect)
    requires
        a.inside(ra),
        b.inside(rb),
        ra.disjoint(rb),
    ensures
        a.disjoint(b),
{
}

} // verus!
