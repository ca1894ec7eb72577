//! One plane of a text atlas: a square texture of one kind, the packer that
//! divides it, the glyphs that reside in it and the ones in use.

use vstd::prelude::*;
use std::collections::HashSet;
use etagere::BucketedAtlasAllocator;
use crate::book::{
    blocked, book_valid, evicted_to, in_use_last, lemma_book_drop_oldest, lemma_book_grow,
    lemma_book_no_overlap, lemma_book_promote, lemma_book_push_empty, lemma_book_push_placed,
    lemma_evicted_holds_no_more, lemma_evicted_in_use_last, lemma_evicted_keys_distinct,
    lemma_evicted_none, lemma_evicted_twice, lemma_in_use_survives, lemma_oldest_in_use_blocks,
    lemma_oldest_leave_first, lemma_promote_in_use_last, lemma_push_in_use_last,
    lemma_room_made_evicts, room_made, Eviction,
};
use crate::error::AtlasError;
use crate::glyph::GlyphIdentity;
use crate::kind::Kind;
use crate::packer::{
    packer_allocate, packer_deallocate, packer_fits, packer_grow, packer_new, packer_regions,
    packer_side, slot_is_free, Rect, Slot,
};
use crate::placement::{CachedGlyph, Placement, Region};
use crate::recency::{
    cache_contains, cache_entries, cache_get, cache_is_unbounded, cache_new, cache_peek_lru,
    cache_pop_lru, cache_put, cache_recent_first, holds_key, index_of_key, lemma_lookup_finds,
    lookup, promote, Entry, GlyphCache,
};

verus! {

broadcast use {vstd::std_specs::hash::group_hash_axioms, vstd::map_lib::lemma_submap_of_trans};

/// The side of the texture of a new plane, in texels.
pub const INITIAL_SIZE: u32 = 256;

/// The largest side a texture can have, in texels.
pub const MAX_TEXTURE_DIMENSION_2D: u32 = 16384;

/// The factor by which a plane grows along each side.
pub const GROWTH_FACTOR: u32 = 2;

/// The side of a plane of side `size` after it has grown: twice the side,
/// but no more than a texture can have.
pub open spec fn grown_size(size: u32) -> u32 {
    if size * GROWTH_FACTOR <= MAX_TEXTURE_DIMENSION_2D {
        (size * GROWTH_FACTOR) as u32
    } else {
        MAX_TEXTURE_DIMENSION_2D
    }
}

/// A plane of side `from` has side `to` after growing some number of times,
/// possibly none.
pub open spec fn grows_to(from: u32, to: u32) -> bool
    decreases MAX_TEXTURE_DIMENSION_2D - from,
{
    from == to || (0 < from < MAX_TEXTURE_DIMENSION_2D && grows_to(grown_size(from), to))
}

/// A plane that has grown from one side to another can grow once more.
pub proof fn lemma_grows_once_more(from: u32, to: u32)
    requires
        grows_to(from, to),
        0 < to < MAX_TEXTURE_DIMENSION_2D,
    ensures
        grows_to(from, grown_size(to)),
        from <= to < grown_size(to),
    decreases MAX_TEXTURE_DIMENSION_2D - from,
{
    if from != to {
        lemma_grows_once_more(grown_size(from), to);
    } else {
        assert(grows_to(grown_size(to), grown_size(to)));
    }
}

/// The glyph of an entry, for an entry whose glyph has a region.
pub open spec fn placed_glyph(entry: Entry) -> Option<CachedGlyph> {
    if entry.1.placement.region is Some {
        Some(entry.1)
    } else {
        None
    }
}

/// [`placed_glyph`] as a function value.
pub open spec fn placed_glyph_fn() -> spec_fn(Entry) -> Option<CachedGlyph> {
    |entry: Entry| placed_glyph(entry)
}

/// What a plane answers to a request for residency.
#[derive(Debug, Clone, Copy, PartialEq, Eq, Structural)]
pub struct Resident {
    /// Where the glyph resides.
    pub placement: Placement,
    /// The plane knew the glyph already: nothing has to be rasterized or
    /// copied into the texture.
    pub cached: bool,
}

/// A plane as a mathematical value.
#[verifier::ext_equal]
pub struct PlaneView {
    /// The kind of the plane.
    pub kind: Kind,
    /// The side of the texture, in texels.
    pub size: u32,
    /// The glyphs that reside in the plane, each with its key, from the
    /// least recently used to the most recently used.
    pub entries: Seq<Entry>,
    /// The keys of the glyphs that the frame in preparation uses.
    pub in_use: Set<u128>,
    /// The rectangles that are taken in the packer, by their id.
    pub regions: Map<u32, Rect>,
}

impl PlaneView {
    /// The side is one a plane can have and the books are in order: keys
    /// are used once, every glyph with a region owns one packer rectangle
    /// that holds it, every rectangle has one owner, and the rectangles lie
    /// in the texture without overlap. The glyphs in use are the most
    /// recently used ones.
    pub open spec fn wf(self) -> bool {
        &&& INITIAL_SIZE <= self.size <= MAX_TEXTURE_DIMENSION_2D
        &&& book_valid(self.entries, self.regions, self.kind, self.size as int)
        &&& in_use_last(self.entries, self.in_use)
    }

    /// The plane at the end of a frame: nothing is in use.
    pub open spec fn trimmed(self) -> PlaneView {
        PlaneView { in_use: Set::empty(), ..self }
    }

    /// The plane after it has grown, if it can grow.
    pub open spec fn grown(self) -> PlaneView {
        PlaneView { size: grown_size(self.size), ..self }
    }

    /// The glyphs whose texels a texture of the plane must hold, the most
    /// recently used first.
    pub open spec fn residents(self) -> Seq<CachedGlyph> {
        self.entries.reverse().filter_map(placed_glyph_fn())
    }

    /// The glyph resides in a region of `width` by `height` texels that the
    /// request for it was given: it is the most recently used entry of
    /// `after`, and `after` holds besides it what eviction has left. But for
    /// the rectangle of the glyph, the packer holds no rectangle that it
    /// did not hold before.
    pub open spec fn placed(
        self,
        after: PlaneView,
        identity: GlyphIdentity,
        width: u16,
        height: u16,
        resident: Resident,
    ) -> bool {
        &&& !resident.cached
        &&& resident.placement.channels == self.kind.spec_num_channels()
        &&& resident.placement.region is Some
        &&& resident.placement.region->0.width == width
        &&& resident.placement.region->0.height == height
        &&& resident.placement.region->0.within(after.size as int)
        &&& after.entries.len() > 0
        &&& after.entries.last().0 == identity.spec_key()
        &&& after.entries.last().1.identity == identity
        &&& after.entries.last().1.placement == resident.placement
        &&& after.entries.last().1.atlas_id is Some
        &&& evicted_to(self.entries, after.entries.drop_last(), self.in_use)
        &&& after.regions.remove(after.entries.last().1.atlas_id->0).submap_of(self.regions)
        &&& after.in_use == self.in_use.insert(identity.spec_key())
    }

    /// No room was found: eviction went as far as it may and the glyph was
    /// not filed. The packer holds no rectangle that it did not hold before.
    pub open spec fn refused(self, after: PlaneView) -> bool {
        &&& evicted_to(self.entries, after.entries, self.in_use)
        &&& blocked(after.entries, self.in_use)
        &&& after.regions.submap_of(self.regions)
        &&& after.in_use == self.in_use
    }

    /// What [`InnerAtlas::reclaim_oldest`] makes of the plane `self`: the
    /// oldest glyphs out of use have left, up to and with the first that has
    /// texels, whose rectangle the packer has no more. Where no glyph out of
    /// use has texels, all of them have left and the packer has what it had.
    pub open spec fn reclaimed_to(self, after: PlaneView, reclaimed: bool) -> bool {
        let n = self.entries.len() - after.entries.len();
        &&& after.kind == self.kind
        &&& after.size == self.size
        &&& after.in_use == self.in_use
        &&& room_made(self.entries, self.in_use, n, reclaimed)
        &&& after.entries == self.entries.skip(n)
        &&& after.regions == if reclaimed {
            self.regions.remove(self.entries[n - 1].1.atlas_id->0)
        } else {
            self.regions
        }
    }

    /// The request is one that a plane answers without asking the packer:
    /// the glyph resides in the plane, or it has no texels.
    pub open spec fn needs_no_room(self, identity: GlyphIdentity, width: u16, height: u16) -> bool {
        lookup(self.entries, identity.spec_key()) is Some || width == 0 || height == 0
    }

    /// What [`InnerAtlas::ensure_resident`] answers and what it makes of
    /// the plane `self`.
    pub open spec fn answers(
        self,
        after: PlaneView,
        identity: GlyphIdentity,
        width: u16,
        height: u16,
        result: Result<Resident, AtlasError>,
    ) -> bool {
        let key = identity.spec_key();
        let channels = self.kind.spec_num_channels();
        &&& after.kind == self.kind
        &&& after.size == self.size
        &&& match lookup(self.entries, key) {
            Some(glyph) => {
                // A hit.
                &&& result == Ok::<Resident, AtlasError>(
                    Resident { placement: glyph.placement, cached: true },
                )
                &&& after.entries == promote(self.entries, key)
                &&& after.in_use == self.in_use.insert(key)
                &&& after.regions == self.regions
            },
            None => if width == 0 || height == 0 {
                // A glyph without texels.
                let placement = Placement { region: None, channels };
                &&& result == Ok::<Resident, AtlasError>(Resident { placement, cached: false })
                &&& after.entries == self.entries.push(
                    (key, CachedGlyph { identity, placement, atlas_id: None }),
                )
                &&& after.in_use == self.in_use.insert(key)
                &&& after.regions == self.regions
            } else {
                match result {
                    Ok(resident) => self.placed(after, identity, width, height, resident),
                    Err(error) => error == AtlasError::AtlasExhausted && self.refused(after),
                }
            },
        }
    }

    /// What [`InnerAtlas::ensure_resident_or_grow`] answers and what it
    /// makes of the plane `self`.
    pub open spec fn settles(
        self,
        after: PlaneView,
        identity: GlyphIdentity,
        width: u16,
        height: u16,
        result: Result<Resident, AtlasError>,
    ) -> bool {
        if self.needs_no_room(identity, width, height) {
            self.answers(after, identity, width, height, result)
        } else {
            &&& after.kind == self.kind
            &&& grows_to(self.size, after.size)
            &&& match result {
                Ok(resident) => self.placed(after, identity, width, height, resident),
                Err(error) => {
                    &&& error == AtlasError::AtlasAtMaximumSize
                    &&& after.size == MAX_TEXTURE_DIMENSION_2D
                    &&& self.refused(after)
                },
            }
        }
    }

    /// No two glyphs of a plane share a texel, and each lies in the texture.
    pub proof fn lemma_no_overlap(self, i: int, j: int)
        requires
            self.wf(),
            0 <= i < self.entries.len(),
            0 <= j < self.entries.len(),
            i != j,
            self.entries[i].1.placement.region is Some,
            self.entries[j].1.placement.region is Some,
        ensures
            self.entries[i].1.placement.region->0.disjoint(self.entries[j].1.placement.region->0),
            self.entries[i].1.placement.region->0.within(self.size as int),
    {
        lemma_book_no_overlap(self.entries, self.regions, self.kind, self.size as int, i, j);
    }

    /// What a plane files under the key of an identity is that identity, so
    /// that a hit answers with the placement of the glyph that was asked
    /// for and of no other.
    pub proof fn lemma_hit_is_same_glyph(self, identity: GlyphIdentity)
        requires
            self.wf(),
            lookup(self.entries, identity.spec_key()) is Some,
        ensures
            lookup(self.entries, identity.spec_key())->0.identity == identity,
    {
        let at = index_of_key(self.entries, identity.spec_key());
        assert(crate::book::glyph_wf(self.entries[at], self.kind));
        crate::glyph::lemma_key_injective(self.entries[at].1.identity, identity);
    }

    /// A glyph that was requested is the most recently used one afterwards:
    /// of all glyphs that reside in the plane it is the last that eviction
    /// takes.
    pub proof fn lemma_requested_is_most_recent(
        self,
        after: PlaneView,
        identity: GlyphIdentity,
        width: u16,
        height: u16,
        result: Result<Resident, AtlasError>,
    )
        requires
            self.settles(after, identity, width, height, result) || self.answers(
                after,
                identity,
                width,
                height,
                result,
            ),
            result is Ok,
        ensures
            after.entries.len() > 0,
            after.entries.last().0 == identity.spec_key(),
            after.entries.last().1.placement == result->Ok_0.placement,
            after.in_use.contains(identity.spec_key()),
    {
    }

    /// A request never evicts a glyph that is in use, whether it is granted
    /// or not and whether the plane grows or not: the glyph resides in the
    /// plane afterwards as it did before, and is still in use.
    pub proof fn lemma_in_use_stays(
        self,
        after: PlaneView,
        identity: GlyphIdentity,
        width: u16,
        height: u16,
        result: Result<Resident, AtlasError>,
        i: int,
    )
        requires
            self.wf(),
            self.settles(after, identity, width, height, result) || self.answers(
                after,
                identity,
                width,
                height,
                result,
            ),
            0 <= i < self.entries.len(),
            self.in_use.contains(self.entries[i].0),
        ensures
            lookup(after.entries, self.entries[i].0) == Some(self.entries[i].1),
            after.in_use.contains(self.entries[i].0),
    {
        let key = identity.spec_key();
        let kept = self.entries[i];
        if lookup(self.entries, key) is Some {
            let at = index_of_key(self.entries, key);
            let moved = self.entries.remove(at).push(self.entries[at]);
            let to = if i == at {
                moved.len() - 1
            } else if i < at {
                i
            } else {
                i - 1
            };
            assert(moved[to] == kept);
            lemma_book_promote(self.entries, self.regions, self.kind, self.size as int, key);
            lemma_lookup_finds(moved, to);
        } else if width == 0 || height == 0 {
            let entry = (
                key,
                CachedGlyph {
                    identity,
                    placement: Placement { region: None, channels: self.kind.spec_num_channels() },
                    atlas_id: None,
                },
            );
            let grown = self.entries.push(entry);
            assert(grown[i] == kept);
            lemma_book_push_empty(
                self.entries,
                self.regions,
                self.kind,
                self.size as int,
                entry,
            );
            lemma_lookup_finds(grown, i);
        } else {
            let left = if result is Ok {
                after.entries.drop_last()
            } else {
                after.entries
            };
            lemma_in_use_survives(self.entries, left, self.in_use, i);
            let to = i - (self.entries.len() - left.len());
            assert(left[to] == kept);
            lemma_evicted_keys_distinct(self.entries, left, self.in_use, after.entries.last());
            if result is Ok {
                assert(after.entries =~= left.push(after.entries.last()));
            }
            lemma_lookup_finds(after.entries, to);
        }
    }

    /// A request evicts the least recently used glyphs first: when it has
    /// taken a glyph from the plane, it has taken every glyph that was used
    /// less recently.
    pub proof fn lemma_oldest_evicted_first(
        self,
        after: PlaneView,
        identity: GlyphIdentity,
        width: u16,
        height: u16,
        result: Result<Resident, AtlasError>,
        older: int,
        newer: int,
    )
        requires
            self.wf(),
            self.settles(after, identity, width, height, result) || self.answers(
                after,
                identity,
                width,
                height,
                result,
            ),
            0 <= older <= newer < self.entries.len(),
            !holds_key(after.entries, self.entries[newer].0),
        ensures
            !holds_key(after.entries, self.entries[older].0),
    {
        let key = identity.spec_key();
        let gone = self.entries[older].0;
        if lookup(self.entries, key) is Some {
            let at = index_of_key(self.entries, key);
            let moved = self.entries.remove(at).push(self.entries[at]);
            let to = if newer == at {
                moved.len() - 1
            } else if newer < at {
                newer
            } else {
                newer - 1
            };
            assert(moved[to] == self.entries[newer]);
        } else if width == 0 || height == 0 {
            assert(after.entries[newer] == self.entries[newer]);
        } else {
            let left = if result is Ok {
                after.entries.drop_last()
            } else {
                after.entries
            };
            if holds_key(left, self.entries[newer].0) {
                let at = index_of_key(left, self.entries[newer].0);
                assert(after.entries[at] == left[at]);
            }
            lemma_oldest_leave_first(self.entries, left, self.in_use, older, newer);
            if holds_key(after.entries, gone) {
                let at = index_of_key(after.entries, gone);
                if at < left.len() {
                    assert(left[at] == after.entries[at]);
                } else {
                    assert(self.entries[older].0 == key);
                }
            }
        }
    }

    /// A glyph without texels is always made resident and takes no room in
    /// the packer, however often it is requested.
    pub proof fn lemma_empty_glyph_takes_no_room(
        self,
        after: PlaneView,
        identity: GlyphIdentity,
        width: u16,
        height: u16,
        result: Result<Resident, AtlasError>,
    )
        requires
            self.settles(after, identity, width, height, result) || self.answers(
                after,
                identity,
                width,
                height,
                result,
            ),
            width == 0 || height == 0,
        ensures
            result is Ok,
            after.regions == self.regions,
            after.size == self.size,
            !holds_key(self.entries, identity.spec_key()) ==> {
                &&& result->Ok_0.placement.region is None
                &&& after.entries.last().1.atlas_id is None
            },
    {
    }

    /// Ending a frame twice is ending it once, and ending a frame changes
    /// nothing but what is in use.
    pub proof fn lemma_trim_idempotent(self)
        ensures
            self.trimmed().trimmed() == self.trimmed(),
            self.trimmed().entries == self.entries,
            self.trimmed().regions == self.regions,
            self.trimmed().size == self.size,
            self.trimmed().kind == self.kind,
            self.wf() ==> self.trimmed().wf(),
    {
    }

    /// Growing a plane moves no glyph: each keeps its placement, its place
    /// in the order of use and its being in use, and the texture of the
    /// grown plane has to hold the same glyphs at the same places.
    pub proof fn lemma_grow_keeps_placements(self)
        requires
            self.wf(),
        ensures
            self.grown().wf(),
            self.grown().entries == self.entries,
            self.grown().in_use == self.in_use,
            self.grown().regions == self.regions,
            self.grown().residents() == self.residents(),
            self.grown().size >= self.size,
    {
        lemma_book_grow(
            self.entries,
            self.regions,
            self.kind,
            self.size as int,
            grown_size(self.size) as int,
        );
    }
}

/// One plane of a text atlas.
pub struct InnerAtlas {
    kind: Kind,
    packer: BucketedAtlasAllocator,
    size: u32,
    glyph_cache: GlyphCache,
    glyphs_in_use: HashSet<u128>,
}

impl View for InnerAtlas {
    type V = PlaneView;

    closed spec fn view(&self) -> PlaneView {
        PlaneView {
            kind: self.kind,
            size: self.size,
            entries: cache_entries(self.glyph_cache),
            in_use: self.glyphs_in_use@,
            regions: packer_regions(self.packer),
        }
    }
}

impl InnerAtlas {
    /// The packer covers the texture and the cache has no capacity of its
    /// own.
    pub closed spec fn framed(&self) -> bool {
        &&& packer_side(self.packer) == self.size
        &&& cache_is_unbounded(self.glyph_cache)
    }

    /// The plane is consistent: see [`PlaneView::wf`].
    pub open spec fn wf(&self) -> bool {
        &&& self.framed()
        &&& self@.wf()
    }

    /// The packer of the plane, with all that decides where it finds room.
    pub closed spec fn packing(&self) -> BucketedAtlasAllocator {
        self.packer
    }

    /// The packer of the plane, as it is, finds room for a bitmap of `width`
    /// by `height` texels.
    pub open spec fn has_room(&self, width: u16, height: u16) -> bool {
        packer_fits(self.packing(), width, height)
    }

    /// What [`InnerAtlas::reclaim_oldest`] makes of the plane `self`, packer
    /// and all: see [`PlaneView::reclaimed_to`]. A step that gives no
    /// rectangle back leaves the packer as it is.
    pub open spec fn reclaims_to(&self, after: InnerAtlas, reclaimed: bool) -> bool {
        &&& after.wf()
        &&& self@.reclaimed_to(after@, reclaimed)
        &&& !reclaimed ==> after.packing() == self.packing()
    }

    /// What the search for a rectangle for a bitmap of `width` by `height`
    /// texels makes of the plane `self`, and what it finds.
    ///
    /// A packer that has room hands out a free rectangle and no glyph is
    /// evicted. A packer without room is given one rectangle back, as
    /// [`InnerAtlas::reclaim_oldest`] does it, and the search goes on from
    /// there; when no rectangle can be given back, the search ends without
    /// one.
    pub open spec fn finds_room(
        &self,
        after: InnerAtlas,
        width: u16,
        height: u16,
        slot: Option<Slot>,
    ) -> bool
        decreases self@.entries.len(),
    {
        if self.has_room(width, height) {
            &&& slot is Some
            &&& slot_is_free(
                self@.regions,
                self@.size as int,
                slot->0,
                width as int,
                height as int,
            )
            &&& after@ == (PlaneView {
                regions: self@.regions.insert(slot->0.id, slot->0.rect),
                ..self@
            })
        } else {
            exists|mid: InnerAtlas, reclaimed: bool| #[trigger]
                self.reclaims_to(mid, reclaimed) && if reclaimed {
                    mid.finds_room(after, width, height, slot)
                } else {
                    slot is None && after == mid
                }
        }
    }

    /// The search for a rectangle goes by what resides in the plane, what is
    /// in use and what the packer holds, and by nothing else.
    pub proof fn lemma_finds_room_alike(
        &self,
        other: InnerAtlas,
        after: InnerAtlas,
        width: u16,
        height: u16,
        slot: Option<Slot>,
    )
        requires
            self@ == other@,
            self.packing() == other.packing(),
            self.finds_room(after, width, height, slot),
        ensures
            other.finds_room(after, width, height, slot),
    {
        if !self.has_room(width, height) {
            let (mid, reclaimed) = choose|mid: InnerAtlas, reclaimed: bool| #[trigger]
                self.reclaims_to(mid, reclaimed) && if reclaimed {
                    mid.finds_room(after, width, height, slot)
                } else {
                    slot is None && after == mid
                };
            assert(other.reclaims_to(mid, reclaimed));
        }
    }

    /// A request for which the packer has no room, while every glyph with
    /// texels is in use, is refused. No rectangle goes back to the packer
    /// and no glyph with texels leaves the plane: all that leave are glyphs
    /// without texels that are out of use.
    pub proof fn lemma_all_in_use_exhausts(
        &self,
        after: InnerAtlas,
        identity: GlyphIdentity,
        width: u16,
        height: u16,
        result: Result<Resident, AtlasError>,
    )
        requires
            self.wf(),
            !self@.needs_no_room(identity, width, height),
            !self.has_room(width, height),
            forall|i: int|
                0 <= i < self@.entries.len() && (#[trigger] self@.entries[i]).1.atlas_id is Some
                    ==> self@.in_use.contains(self@.entries[i].0),
            self.makes_resident(after, identity, width, height, result),
        ensures
            result == Err::<Resident, AtlasError>(AtlasError::AtlasExhausted),
            self@.reclaimed_to(after@, false),
            after.packing() == self.packing(),
    {
        let (found, slot) = choose|found: InnerAtlas, slot: Option<Slot>| #[trigger]
            self.finds_room(found, width, height, slot) && found.filed_as(
                after,
                identity,
                width,
                height,
                slot,
                result,
            );
        let (mid, reclaimed) = choose|mid: InnerAtlas, reclaimed: bool| #[trigger]
            self.reclaims_to(mid, reclaimed) && if reclaimed {
                mid.finds_room(found, width, height, slot)
            } else {
                slot is None && found == mid
            };
        if reclaimed {
            let n = self@.entries.len() - mid@.entries.len();
            assert(self@.in_use.contains(self@.entries[n - 1].0));
        }
    }

    /// What becomes of the plane `self`, in which a rectangle was sought for
    /// a glyph, when the glyph is filed. Without a rectangle the plane stays
    /// as the search left it and is exhausted. With one, the glyph resides
    /// in the corner of the rectangle, is the most recently used glyph and
    /// is in use.
    pub open spec fn filed_as(
        &self,
        after: InnerAtlas,
        identity: GlyphIdentity,
        width: u16,
        height: u16,
        slot: Option<Slot>,
        result: Result<Resident, AtlasError>,
    ) -> bool {
        match slot {
            None => result == Err::<Resident, AtlasError>(AtlasError::AtlasExhausted) && after
                == *self,
            Some(slot) => {
                let region = Region {
                    x: slot.rect.min_x as u16,
                    y: slot.rect.min_y as u16,
                    width,
                    height,
                };
                let placement = Placement {
                    region: Some(region),
                    channels: self@.kind.spec_num_channels(),
                };
                let glyph = CachedGlyph { identity, placement, atlas_id: Some(slot.id) };
                &&& result == Ok::<Resident, AtlasError>(Resident { placement, cached: false })
                &&& after@ == (PlaneView {
                    entries: self@.entries.push((identity.spec_key(), glyph)),
                    in_use: self@.in_use.insert(identity.spec_key()),
                    ..self@
                })
                &&& after.packing() == self.packing()
            },
        }
    }

    /// What [`InnerAtlas::ensure_resident`] makes of the plane `self`,
    /// packer and all, and what it answers. A request that needs no room is
    /// answered as [`PlaneView::answers`] says, and leaves the packer as it
    /// is. For any other, a rectangle is sought as
    /// [`InnerAtlas::finds_room`] says, and the glyph is filed in it.
    pub open spec fn makes_resident(
        &self,
        after: InnerAtlas,
        identity: GlyphIdentity,
        width: u16,
        height: u16,
        result: Result<Resident, AtlasError>,
    ) -> bool {
        if self@.needs_no_room(identity, width, height) {
            &&& self@.answers(after@, identity, width, height, result)
            &&& after.packing() == self.packing()
        } else {
            exists|found: InnerAtlas, slot: Option<Slot>| #[trigger]
                self.finds_room(found, width, height, slot) && found.filed_as(
                    after,
                    identity,
                    width,
                    height,
                    slot,
                    result,
                )
        }
    }

    /// What [`InnerAtlas::grow`] makes of the plane `self`, packer and all. A
    /// plane that cannot grow stays as it is.
    pub open spec fn grows_plane_to(&self, after: InnerAtlas, grew: bool) -> bool {
        &&& after.wf()
        &&& grew == (self@.size < MAX_TEXTURE_DIMENSION_2D)
        &&& grew ==> after@ == self@.grown()
        &&& !grew ==> after@ == self@ && after.packing() == self.packing()
    }

    /// What [`InnerAtlas::ensure_resident_or_grow`] makes of the plane
    /// `self`, packer and all, and what it answers. The glyph is made
    /// resident as [`InnerAtlas::makes_resident`] says. Where that fails,
    /// the plane grows and the request is made again of the grown plane;
    /// where the plane cannot grow, it is at its maximum size.
    pub open spec fn settles_to(
        &self,
        after: InnerAtlas,
        identity: GlyphIdentity,
        width: u16,
        height: u16,
        result: Result<Resident, AtlasError>,
    ) -> bool
        decreases MAX_TEXTURE_DIMENSION_2D - self@.size,
    {
        exists|tried: InnerAtlas, first: Result<Resident, AtlasError>| #[trigger]
            self.makes_resident(tried, identity, width, height, first) && tried.wf() && tried@.size
                == self@.size && if first is Ok {
                after == tried && result == first
            } else {
                exists|grown: InnerAtlas, grew: bool| #[trigger]
                    tried.grows_plane_to(grown, grew) && if grew {
                        grown.settles_to(after, identity, width, height, result)
                    } else {
                        after == grown && result == Err::<Resident, AtlasError>(
                            AtlasError::AtlasAtMaximumSize,
                        )
                    }
            }
    }

    /// A plane of the given kind with a texture of the initial size, in
    /// which nothing resides and nothing is in use.
    pub fn new(kind: Kind) -> (atlas: InnerAtlas)
        ensures
            atlas.wf(),
            atlas@ == (PlaneView {
                kind,
                size: INITIAL_SIZE,
                entries: Seq::empty(),
                in_use: Set::empty(),
                regions: Map::empty(),
            }),
    {
        let size = INITIAL_SIZE;
        let packer = packer_new(size);
        let glyph_cache = cache_new();
        let glyphs_in_use = HashSet::new();
        InnerAtlas { kind, packer, size, glyph_cache, glyphs_in_use }
    }

    /// The kind of the plane.
    pub fn kind(&self) -> (kind: Kind)
        ensures
            kind == self@.kind,
    {
        self.kind
    }

    /// The side of the texture of the plane, in texels.
    pub fn size(&self) -> (size: u32)
        ensures
            size == self@.size,
    {
        self.size
    }

    /// The number of 8-bit channels of each texel of the plane.
    pub fn num_channels(&self) -> (n: usize)
        ensures
            n == self@.kind.spec_num_channels(),
    {
        self.kind.num_channels()
    }

    /// Whether the glyph resides in the plane, so that a request for it is
    /// a hit. Asking does not count as a use of the glyph.
    pub fn is_resident(&self, identity: GlyphIdentity) -> (resident: bool)
        ensures
            resident == holds_key(self@.entries, identity.spec_key()),
            resident == (lookup(self@.entries, identity.spec_key()) is Some),
    {
        cache_contains(&self.glyph_cache, identity.key())
    }

    /// Whether the frame in preparation uses the glyph.
    pub fn is_in_use(&self, identity: GlyphIdentity) -> (used: bool)
        ensures
            used == self@.in_use.contains(identity.spec_key()),
    {
        let key = identity.key();
        self.glyphs_in_use.contains(&key)
    }

    /// Ends the frame: no glyph is in use any more. The glyphs stay where
    /// they are.
    pub fn trim(&mut self)
        ensures
            final(self)@ == old(self)@.trimmed(),
            final(self).packing() == old(self).packing(),
            old(self).wf() ==> final(self).wf(),
    {
        self.glyphs_in_use.clear();
    }

    /// Doubles the side of the texture, up to the largest side a texture can
    /// have, and tells whether the plane grew. The glyphs stay where they
    /// are, in use or not, and in their order of use; the texture that the
    /// caller makes for the new size has to be filled with them again.
    pub fn grow(&mut self) -> (grew: bool)
        requires
            old(self).wf(),
        ensures
            final(self).wf(),
            grew == (old(self)@.size < MAX_TEXTURE_DIMENSION_2D),
            grew ==> final(self)@ == old(self)@.grown(),
            !grew ==> final(self)@ == old(self)@ && final(self).packing() == old(self).packing(),
            old(self).grows_plane_to(*final(self), grew),
    {
        if self.size >= MAX_TEXTURE_DIMENSION_2D {
            return false;
        }
        let doubled: u32 = self.size * GROWTH_FACTOR;
        let new_size: u32 = if doubled <= MAX_TEXTURE_DIMENSION_2D {
            doubled
        } else {
            MAX_TEXTURE_DIMENSION_2D
        };
        proof {
            self@.lemma_grow_keeps_placements();
        }
        packer_grow(&mut self.packer, new_size);
        self.size = new_size;
        true
    }

    /// The glyphs that a texture of the plane must hold, the most recently
    /// used first: those with a region. After the plane has grown, the
    /// caller rasterizes each again and copies it to its region in the new
    /// texture.
    pub fn resident_glyphs(&self) -> (glyphs: Vec<CachedGlyph>)
        ensures
            glyphs@ == self@.residents(),
    {
        let recent = cache_recent_first(&self.glyph_cache);
        let mut glyphs: Vec<CachedGlyph> = Vec::new();
        let mut i: usize = 0;
        while i < recent.len()
            invariant
                i <= recent.len(),
                glyphs@ == recent@.take(i as int).filter_map(placed_glyph_fn()),
            decreases recent.len() - i,
        {
            proof {
                recent@.lemma_filter_map_take_succ(placed_glyph_fn(), i as int);
            }
            let glyph = recent[i].1;
            if glyph.placement.region.is_some() {
                glyphs.push(glyph);
            }
            i += 1;
        }
        proof {
            assert(recent@.take(recent.len() as int) =~= recent@);
        }
        glyphs
    }

    /// Makes room in the packer by one rectangle: that of the least recently
    /// used glyph with texels, which leaves the cache. Older glyphs without
    /// texels leave the cache on the way. No glyph in use leaves: where the
    /// oldest glyph is in use, so are all, and nothing is done. Tells
    /// whether a rectangle was given back.
    pub fn reclaim_oldest(&mut self) -> (reclaimed: bool)
        requires
            old(self).wf(),
        ensures
            final(self).wf(),
            old(self).reclaims_to(*final(self), reclaimed),
    {
        let ghost first = self@;
        loop
            invariant
                self.wf(),
                first == old(self)@,
                self@.kind == first.kind,
                self@.size == first.size,
                self@.in_use == first.in_use,
                self@.regions == first.regions,
                self.packing() == old(self).packing(),
                self@.entries.len() <= first.entries.len(),
                self@.entries == first.entries.skip(first.entries.len() - self@.entries.len()),
                forall|i: int|
                    0 <= i < first.entries.len() - self@.entries.len() ==> {
                        &&& !first.in_use.contains((#[trigger] first.entries[i]).0)
                        &&& first.entries[i].1.atlas_id is None
                    },
            decreases self@.entries.len(),
        {
            let ghost before = self@.entries;
            let ghost gone = first.entries.len() - before.len();
            let (key, glyph) = match cache_peek_lru(&self.glyph_cache) {
                None => {
                    return false;
                },
                Some(entry) => entry,
            };
            proof {
                lemma_book_drop_oldest(before, self@.regions, self.kind, self.size as int);
                assert(before[0] == first.entries[gone]);
                assert(before.drop_first() =~= first.entries.skip(gone + 1));
                assert(before.drop_first() =~= before.skip(1));
            }
            let in_use = self.glyphs_in_use.contains(&key);
            match Eviction::of(glyph, in_use) {
                Eviction::Blocked => {
                    proof {
                        lemma_oldest_in_use_blocks(before, first.in_use);
                    }
                    return false;
                },
                Eviction::Discard => {
                    let _ = cache_pop_lru(&mut self.glyph_cache);
                    proof {
                        lemma_evicted_none(before, first.in_use);
                        assert(evicted_to(before, before.skip(1), first.in_use));
                        lemma_evicted_in_use_last(before, self@.entries, first.in_use);
                    }
                },
                Eviction::Reclaim { id } => {
                    let _ = cache_pop_lru(&mut self.glyph_cache);
                    packer_deallocate(&mut self.packer, id);
                    proof {
                        assert(evicted_to(before, before.skip(1), first.in_use));
                        lemma_evicted_in_use_last(before, self@.entries, first.in_use);
                    }
                    return true;
                },
            }
        }
    }

    /// Finds a rectangle for a bitmap of `width` by `height` texels. Where
    /// the packer has room, nothing is evicted. Where it has none, room is
    /// made rectangle by rectangle, from the least recently used glyph on,
    /// until the packer has room or every glyph left is in use.
    ///
    /// The rectangle that is found belongs to no glyph yet: the caller files
    /// the glyph that goes there.
    pub(crate) fn try_allocate(&mut self, width: u16, height: u16) -> (slot: Option<Slot>)
        requires
            old(self).wf(),
        ensures
            final(self).framed(),
            final(self)@.kind == old(self)@.kind,
            final(self)@.size == old(self)@.size,
            final(self)@.in_use == old(self)@.in_use,
            in_use_last(final(self)@.entries, final(self)@.in_use),
            evicted_to(old(self)@.entries, final(self)@.entries, old(self)@.in_use),
            old(self).has_room(width, height) ==> slot is Some && final(self)@.entries == old(self)@.entries,
            slot is None ==> !final(self).has_room(width, height),
            old(self).finds_room(*final(self), width, height, slot),
            match slot {
                Some(slot) => {
                    let taken = final(self)@.regions.remove(slot.id);
                    &&& book_valid(
                        final(self)@.entries,
                        taken,
                        final(self)@.kind,
                        final(self)@.size as int,
                    )
                    &&& slot_is_free(
                        taken,
                        final(self)@.size as int,
                        slot,
                        width as int,
                        height as int,
                    )
                    &&& final(self)@.regions == taken.insert(slot.id, slot.rect)
                    &&& taken.submap_of(old(self)@.regions)
                },
                None => {
                    &&& final(self).wf()
                    &&& blocked(final(self)@.entries, old(self)@.in_use)
                    &&& final(self)@.regions.submap_of(old(self)@.regions)
                },
            },
    {
        proof {
            lemma_evicted_none(self@.entries, self@.in_use);
        }
        loop
            invariant
                self.wf(),
                self@.kind == old(self)@.kind,
                self@.size == old(self)@.size,
                self@.in_use == old(self)@.in_use,
                evicted_to(old(self)@.entries, self@.entries, old(self)@.in_use),
                self@.regions.submap_of(old(self)@.regions),
                self@.entries.len() == old(self)@.entries.len() ==> self.packing() == old(self).packing(),
                self@.entries.len() < old(self)@.entries.len() ==> !old(self).has_room(
                    width,
                    height,
                ),
                forall|after: InnerAtlas, slot: Option<Slot>| #[trigger]
                    self.finds_room(after, width, height, slot) ==> old(self).finds_room(
                        after,
                        width,
                        height,
                        slot,
                    ),
            decreases self@.entries.len(),
        {
            let ghost before = self@;
            let ghost start = *self;
            let allocation = packer_allocate(&mut self.packer, width, height);
            if allocation.is_some() {
                proof {
                    let slot = allocation->0;
                    assert(self@.regions.remove(slot.id) =~= before.regions);
                    assert(start.finds_room(*self, width, height, allocation));
                }
                return allocation;
            }
            // The packer has no room: free the least recently used allocation.
            assert(*self == start);
            let reclaimed = self.reclaim_oldest();
            proof {
                let ghost made = *self;
                assert(start.reclaims_to(made, reclaimed));
                if reclaimed {
                    assert forall|after: InnerAtlas, slot: Option<Slot>| #[trigger]
                        made.finds_room(after, width, height, slot) implies old(self).finds_room(
                        after,
                        width,
                        height,
                        slot,
                    ) by {
                        assert(start.finds_room(after, width, height, slot));
                    }
                } else {
                    assert(start.finds_room(made, width, height, None));
                }
                lemma_room_made_evicts(
                    before.entries,
                    before.in_use,
                    before.entries.len() - self@.entries.len(),
                    reclaimed,
                );
                lemma_evicted_twice(
                    old(self)@.entries,
                    before.entries,
                    self@.entries,
                    old(self)@.in_use,
                );
            }
            if !reclaimed {
                return None;
            }
        }
    }

    /// Makes the glyph resident in the plane and marks it as in use.
    ///
    /// A glyph that the plane knows is a hit: it becomes the most recently
    /// used one and keeps its placement, whatever `width` and `height` say.
    /// A glyph without texels is filed without a region and takes no room in
    /// the packer. Any other glyph gets a region of `width` by `height`
    /// texels. If the packer has room for it, nothing is evicted; if not,
    /// the least recently used glyphs are evicted until it has. A glyph that
    /// is in use is never evicted: when all that are left are in use and the
    /// packer still has no room, the plane answers
    /// [`AtlasError::AtlasExhausted`].
    pub fn ensure_resident(&mut self, identity: GlyphIdentity, width: u16, height: u16) -> (result:
        Result<Resident, AtlasError>)
        requires
            old(self).wf(),
        ensures
            final(self).wf(),
            old(self)@.answers(final(self)@, identity, width, height, result),
            old(self).makes_resident(*final(self), identity, width, height, result),
            !old(self)@.needs_no_room(identity, width, height) && old(self).has_room(width, height)
                ==> result is Ok && final(self)@.entries.drop_last() == old(self)@.entries,
            result is Err ==> !final(self).has_room(width, height),
    {
        let key = identity.key();
        let ghost before = self@.entries;
        let ghost regions = self@.regions;
        let channels = self.kind.num_channels();
        proof {
            lemma_book_promote(before, regions, self.kind, self.size as int, key);
            lemma_promote_in_use_last(before, self@.in_use, key);
        }
        if let Some(glyph) = cache_get(&mut self.glyph_cache, key) {
            let _ = self.glyphs_in_use.insert(key);
            return Ok(Resident { placement: glyph.placement, cached: true });
        }
        if width == 0 || height == 0 {
            let placement = Placement { region: None, channels };
            let glyph = CachedGlyph { identity, placement, atlas_id: None };
            proof {
                lemma_book_push_empty(before, regions, self.kind, self.size as int, (key, glyph));
                lemma_push_in_use_last(before, self@.in_use, (key, glyph));
            }
            cache_put(&mut self.glyph_cache, key, glyph);
            let _ = self.glyphs_in_use.insert(key);
            return Ok(Resident { placement, cached: false });
        }
        let ghost missed = *self;
        let found = self.try_allocate(width, height);
        let ghost sought = *self;
        proof {
            missed.lemma_finds_room_alike(*old(self), sought, width, height, found);
        }
        let slot = match found {
            Some(slot) => slot,
            None => {
                proof {
                    assert(sought.filed_as(
                        *self,
                        identity,
                        width,
                        height,
                        found,
                        Err(AtlasError::AtlasExhausted),
                    ));
                }
                return Err(AtlasError::AtlasExhausted);
            },
        };
        let ghost kept = self@.entries;
        let ghost taken = self@.regions.remove(slot.id);
        let region = match Region::in_rect(slot.rect, width, height) {
            Some(region) => region,
            None => unreached(),
        };
        let placement = Placement { region: Some(region), channels };
        let glyph = CachedGlyph { identity, placement, atlas_id: Some(slot.id) };
        proof {
            lemma_evicted_holds_no_more(before, kept, old(self)@.in_use, key);
            lemma_book_push_placed(
                kept,
                taken,
                self.kind,
                self.size as int,
                (key, glyph),
                slot,
                width as int,
                height as int,
            );
            lemma_push_in_use_last(kept, self@.in_use, (key, glyph));
        }
        cache_put(&mut self.glyph_cache, key, glyph);
        let _ = self.glyphs_in_use.insert(key);
        proof {
            assert(self@.entries.drop_last() =~= kept);
            assert(sought.filed_as(
                *self,
                identity,
                width,
                height,
                found,
                Ok(Resident { placement, cached: false }),
            ));
        }
        Ok(Resident { placement, cached: false })
    }

    /// Makes the glyph resident in the plane as
    /// [`InnerAtlas::ensure_resident`] does, and grows the plane for as long
    /// as it is exhausted. A plane whose packer has room does not grow. The
    /// request fails only when the plane is as large as a texture can be
    /// and its packer still has no room, with
    /// [`AtlasError::AtlasAtMaximumSize`].
    ///
    /// When the side of the plane has changed, the caller makes a texture of
    /// the new side and fills it with [`InnerAtlas::resident_glyphs`].
    pub fn ensure_resident_or_grow(
        &mut self,
        identity: GlyphIdentity,
        width: u16,
        height: u16,
    ) -> (result: Result<Resident, AtlasError>)
        requires
            old(self).wf(),
        ensures
            final(self).wf(),
            old(self)@.settles(final(self)@, identity, width, height, result),
            old(self).settles_to(*final(self), identity, width, height, result),
            old(self)@.needs_no_room(identity, width, height) ==> final(self).packing() == old(self).packing(),
            !old(self)@.needs_no_room(identity, width, height) && old(self).has_room(width, height)
                ==> result is Ok && final(self)@.size == old(self)@.size && final(self)@.entries.drop_last() == old(self)@.entries,
            result is Err ==> !final(self).has_room(width, height),
    {
        let ghost key = identity.spec_key();
        proof {
            lemma_evicted_none(self@.entries, self@.in_use);
        }
        loop
            invariant
                self.wf(),
                self@.kind == old(self)@.kind,
                self@.in_use == old(self)@.in_use,
                grows_to(old(self)@.size, self@.size),
                evicted_to(old(self)@.entries, self@.entries, old(self)@.in_use),
                self@.regions.submap_of(old(self)@.regions),
                self@.size == old(self)@.size ==> self@ == old(self)@ && self.packing() == old(self).packing(),
                self@.size != old(self)@.size ==> !old(self)@.needs_no_room(
                    identity,
                    width,
                    height,
                ) && !old(self).has_room(width, height),
                key == identity.spec_key(),
                forall|after: InnerAtlas, result: Result<Resident, AtlasError>| #[trigger]
                    self.settles_to(after, identity, width, height, result) ==> old(self).settles_to(after, identity, width, height, result),
            decreases MAX_TEXTURE_DIMENSION_2D - self@.size,
        {
            let ghost before = self@;
            let ghost start = *self;
            proof {
                if !old(self)@.needs_no_room(identity, width, height) {
                    lemma_evicted_holds_no_more(
                        old(self)@.entries,
                        before.entries,
                        old(self)@.in_use,
                        key,
                    );
                }
            }
            let first = self.ensure_resident(identity, width, height);
            let ghost tried = *self;
            match first {
                Ok(resident) => {
                    proof {
                        assert(start.settles_to(tried, identity, width, height, first));
                        if !old(self)@.needs_no_room(identity, width, height) {
                            lemma_evicted_twice(
                                old(self)@.entries,
                                before.entries,
                                self@.entries.drop_last(),
                                old(self)@.in_use,
                            );
                        }
                    }
                    return Ok(resident);
                },
                Err(_) => {},
            }
            proof {
                lemma_evicted_twice(
                    old(self)@.entries,
                    before.entries,
                    self@.entries,
                    old(self)@.in_use,
                );
                if self@.size < MAX_TEXTURE_DIMENSION_2D {
                    lemma_grows_once_more(old(self)@.size, self@.size);
                }
            }
            let grew = self.grow();
            proof {
                let ghost grown = *self;
                assert(tried.grows_plane_to(grown, grew));
                if grew {
                    assert forall|after: InnerAtlas, result: Result<Resident, AtlasError>| #[trigger]
                        grown.settles_to(after, identity, width, height, result) implies old(self).settles_to(after, identity, width, height, result) by {
                        assert(start.settles_to(after, identity, width, height, result));
                    }
                } else {
                    assert(start.settles_to(
                        grown,
                        identity,
                        width,
                        height,
                        Err(AtlasError::AtlasAtMaximumSize),
                    ));
                }
            }
            if !grew {
                return Err(AtlasError::AtlasAtMaximumSize);
            }
        }
    }
}

} // verus!
