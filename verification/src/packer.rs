//! The rectangle packer of an atlas plane, as this library sees it.
//!
//! The packing itself is done by `etagere`'s bucketed shelf allocator. Verus
//! cannot look inside it, so this module names what the allocator holds and
//! states, call by call, how each operation changes that. Everything the rest
//! of the library proves about texels rests on the contracts in this file.

use vstd::prelude::*;
use etagere::BucketedAtlasAllocator;

verus! {

/// An axis-aligned rectangle of texels: `min` inclusive, `max` exclusive.
#[derive(Debug, Clone, Copy, PartialEq, Eq, Structural)]
pub struct Rect {
    pub min_x: i32,
    pub min_y: i32,
    pub max_x: i32,
    pub max_y: i32,
}

impl Rect {
    /// The rectangle lies inside the square `[0, side) x [0, side)`.
    pub open spec fn within(self, side: int) -> bool {
        &&& 0 <= self.min_x <= self.max_x <= side
        &&& 0 <= self.min_y <= self.max_y <= side
    }

    /// The two rectangles have no texel in common.
    pub open spec fn disjoint(self, other: Rect) -> bool {
        ||| self.max_x <= other.min_x
        ||| other.max_x <= self.min_x
        ||| self.max_y <= other.min_y
        ||| other.max_y <= self.min_y
    }

    /// The rectangle can take a bitmap of `width` by `height` texels: it is
    /// exactly `width` wide and at least `height` high.
    pub open spec fn fits(self, width: int, height: int) -> bool {
        &&& self.max_x == self.min_x + width
        &&& self.max_y >= self.min_y + height
    }
}

/// A rectangle handed out by the packer, with the id that gives it back.
#[derive(Debug, Clone, Copy, PartialEq, Eq, Structural)]
pub struct Slot {
    pub id: u32,
    pub rect: Rect,
}

/// Every rectangle of `regions` lies in the square of the given side and no
/// two of them share a texel.
pub open spec fn packing_valid(regions: Map<u32, Rect>, side: int) -> bool {
    &&& forall|id: u32| #[trigger] regions.contains_key(id) ==> regions[id].within(side)
    &&& forall|a: u32, b: u32|
        #![trigger regions[a], regions[b]]
        regions.contains_key(a) && regions.contains_key(b) && a != b ==> regions[a].disjoint(
            regions[b],
        )
}

/// `slot` is a new rectangle for a `width` by `height` bitmap that can be
/// added to `regions`: its id is unused, it lies in the square and it shares
/// no texel with a rectangle that is already there.
pub open spec fn slot_is_free(
    regions: Map<u32, Rect>,
    side: int,
    slot: Slot,
    width: int,
    height: int,
) -> bool {
    &&& width > 0 && height > 0
    &&& !regions.contains_key(slot.id)
    &&& slot.rect.within(side)
    &&& slot.rect.fits(width, height)
    &&& forall|id: u32| #[trigger] regions.contains_key(id) ==> regions[id].disjoint(slot.rect)
}

/// A valid packing stays valid when a free slot is added to it.
pub proof fn lemma_packing_grows(
    regions: Map<u32, Rect>,
    side: int,
    slot: Slot,
    width: int,
    height: int,
)
    requires
        packing_valid(regions, side),
        slot_is_free(regions, side, slot, width, height),
    ensures
        packing_valid(regions.insert(slot.id, slot.rect), side),
{
    let grown = regions.insert(slot.id, slot.rect);
    assert forall|a: u32, b: u32|
        #![trigger grown[a], grown[b]]
        grown.contains_key(a) && grown.contains_key(b) && a != b implies grown[a].disjoint(
        grown[b],
    ) by {
        if a == slot.id {
            assert(regions.contains_key(b));
        } else if b == slot.id {
            assert(regions.contains_key(a));
        } else {
            assert(regions.contains_key(a) && regions.contains_key(b));
        }
    }
}

#[verifier::external_type_specification]
#[verifier::external_body]
pub struct ExBucketedAtlasAllocator(BucketedAtlasAllocator);

/// The rectangles that are allocated in `packer` and not yet given back, by
/// the number that `AllocId::serialize` gives for their id.
pub uninterp spec fn packer_regions(packer: BucketedAtlasAllocator) -> Map<u32, Rect>;

/// The side of the square that `packer` was made with or last grown to.
pub uninterp spec fn packer_side(packer: BucketedAtlasAllocator) -> int;

/// `BucketedAtlasAllocator::allocate` on `packer` finds room for a rectangle
/// of `width` by `height`. What it answers depends on the shelves and
/// buckets of the allocator and on the size, and on nothing else.
pub uninterp spec fn packer_fits(packer: BucketedAtlasAllocator, width: u16, height: u16) -> bool;

/// The largest side of a square that this module lets a packer have. Up to
/// here the 16-bit coordinates and the 32-bit area count of `etagere` cannot
/// overflow, whatever is asked of the packer.
pub const MAX_SIDE: u32 = 16384;

/// `BucketedAtlasAllocator::new` on a square of the given side: an allocator
/// with nothing allocated. (From a side of `u16::MAX` on `etagere` panics.)
#[verifier::external_body]
pub(crate) fn packer_new(side: u32) -> (packer: BucketedAtlasAllocator)
    requires
        side <= MAX_SIDE,
    ensures
        packer_regions(packer) == (Map::<u32, Rect>::empty()),
        packer_side(packer) == side,
{
    BucketedAtlasAllocator::new(etagere::size2(side as i32, side as i32))
}

/// `BucketedAtlasAllocator::allocate` with the default options (no alignment,
/// horizontal shelves, one column).
///
/// Whether it answers with an allocation is what [`packer_fits`] names.
/// When it does, the rectangle is exactly as wide as asked and as high as
/// the shelf it was put on, lies inside the square, gets an id that no live
/// allocation has, and overlaps no live allocation. When it answers `None`,
/// which it does for an empty size among others, it has changed nothing in
/// the allocator. (On a square of nearly `u16::MAX` the rounding of shelf
/// heights in `etagere` can overflow.)
#[verifier::external_body]
pub(crate) fn packer_allocate(packer: &mut BucketedAtlasAllocator, width: u16, height: u16) -> (slot:
    Option<Slot>)
    requires
        packer_side(*old(packer)) <= MAX_SIDE,
    ensures
        packer_side(*final(packer)) == packer_side(*old(packer)),
        slot is Some <==> packer_fits(*old(packer), width, height),
        slot is None ==> *final(packer) == *old(packer),
        match slot {
            Some(slot) => {
                &&& slot_is_free(
                    packer_regions(*old(packer)),
                    packer_side(*old(packer)),
                    slot,
                    width as int,
                    height as int,
                )
                &&& packer_regions(*final(packer)) == packer_regions(*old(packer)).insert(
                    slot.id,
                    slot.rect,
                )
            },
            None => packer_regions(*final(packer)) == packer_regions(*old(packer)),
        },
{
    packer.allocate(etagere::size2(width as i32, height as i32)).map(
        |a| Slot {
            id: a.id.serialize(),
            rect: Rect {
                min_x: a.rectangle.min.x,
                min_y: a.rectangle.min.y,
                max_x: a.rectangle.max.x,
                max_y: a.rectangle.max.y,
            },
        },
    )
}

/// `BucketedAtlasAllocator::deallocate` on the id of a live allocation, which
/// then is live no more. (On an id that is not live `etagere` may panic.) The
/// other allocations keep their ids and rectangles.
#[verifier::external_body]
pub(crate) fn packer_deallocate(packer: &mut BucketedAtlasAllocator, id: u32)
    requires
        packer_regions(*old(packer)).contains_key(id),
    ensures
        packer_side(*final(packer)) == packer_side(*old(packer)),
        packer_regions(*final(packer)) == packer_regions(*old(packer)).remove(id),
{
    packer.deallocate(etagere::AllocId::deserialize(id))
}

/// `BucketedAtlasAllocator::grow` to a square that is no smaller than the
/// current one (else `etagere` panics, as it does from a side of `u16::MAX`
/// on). The live allocations keep their ids and rectangles.
#[verifier::external_body]
pub(crate) fn packer_grow(packer: &mut BucketedAtlasAllocator, side: u32)
    requires
        packer_side(*old(packer)) <= side <= MAX_SIDE,
    ensures
        packer_side(*final(packer)) == side,
        packer_regions(*final(packer)) == packer_regions(*old(packer)),
{
    packer.grow(etagere::size2(side as i32, side as i32))
}

} // verus!
