//! What has to hold between the recency cache and the packer of a plane, and
//! why each step a plane takes keeps it so.

use vstd::prelude::*;
use crate::kind::Kind;
use crate::packer::{packing_valid, slot_is_free, Rect, Slot};
use crate::placement::{lemma_regions_disjoint, CachedGlyph, Region};
use crate::recency::{holds_key, index_of_key, keys_distinct, promote, Entry};

verus! {

/// The entry is filed under the key of its identity, counts the channels of
/// the plane, and has a packer id exactly if it has a region.
pub open spec fn glyph_wf(entry: Entry, kind: Kind) -> bool {
    &&& entry.0 == entry.1.identity.spec_key()
    &&& entry.1.placement.channels == kind.spec_num_channels()
    &&& entry.1.placement.region is Some <==> entry.1.atlas_id is Some
}

/// The rectangle that the glyph names is live in the packer, and the region
/// of the glyph lies in it.
pub open spec fn housed(glyph: CachedGlyph, regions: Map<u32, Rect>) -> bool {
    &&& glyph.atlas_id is Some
    &&& glyph.placement.region is Some
    &&& regions.contains_key(glyph.atlas_id->0)
    &&& glyph.placement.region->0.inside(regions[glyph.atlas_id->0])
}

/// Some entry names the packer rectangle `id` as its own.
pub open spec fn owns(entries: Seq<Entry>, id: u32) -> bool {
    exists|i: int| 0 <= i < entries.len() && (#[trigger] entries[i]).1.atlas_id == Some(id)
}

/// The books of a plane are in order: keys are used once, every glyph with a
/// region owns one live packer rectangle that holds the region, no rectangle
/// has two owners or none, and the rectangles lie in the square of the plane
/// without overlap.
pub open spec fn book_valid(
    entries: Seq<Entry>,
    regions: Map<u32, Rect>,
    kind: Kind,
    side: int,
) -> bool {
    &&& keys_distinct(entries)
    &&& forall|i: int| 0 <= i < entries.len() ==> glyph_wf(#[trigger] entries[i], kind)
    &&& forall|i: int|
        0 <= i < entries.len() && (#[trigger] entries[i]).1.atlas_id is Some ==> housed(
            entries[i].1,
            regions,
        )
    &&& forall|i: int, j: int|
        0 <= i < j < entries.len() && (#[trigger] entries[i]).1.atlas_id is Some
            ==> entries[i].1.atlas_id != (#[trigger] entries[j]).1.atlas_id
    &&& forall|id: u32| #[trigger] regions.contains_key(id) ==> owns(entries, id)
    &&& packing_valid(regions, side)
}

/// An entry that eviction may take from the cache: the frame in preparation
/// does not use it.
pub open spec fn evictable(entry: Entry, in_use: Set<u128>) -> bool {
    !in_use.contains(entry.0)
}

/// The glyphs in use are the most recently used ones: behind a glyph that is
/// in use, no glyph is out of use. A glyph comes into use by a request, which
/// makes it the most recent one, and glyphs go out of use all at once.
pub open spec fn in_use_last(entries: Seq<Entry>, in_use: Set<u128>) -> bool {
    forall|i: int, j: int|
        0 <= i <= j < entries.len() && in_use.contains((#[trigger] entries[i]).0)
            ==> in_use.contains((#[trigger] entries[j]).0)
}

/// What making room does with the least recently used glyph of a plane.
#[derive(Debug, Clone, Copy, PartialEq, Eq, Structural)]
pub enum Eviction {
    /// The glyph is in use, with or without texels: it stays. As the glyphs
    /// in use are the most recently used ones, every glyph after it is in
    /// use as well, and no room can be made.
    Blocked,
    /// The glyph has no texels: it leaves the cache, which gives no room.
    Discard,
    /// The glyph leaves the cache and its rectangle goes back to the packer.
    Reclaim { id: u32 },
}

impl Eviction {
    /// What making room does with a glyph, by whether the frame in
    /// preparation uses it.
    pub open spec fn spec_of(glyph: CachedGlyph, in_use: bool) -> Eviction {
        if in_use {
            Eviction::Blocked
        } else {
            match glyph.atlas_id {
                None => Eviction::Discard,
                Some(id) => Eviction::Reclaim { id },
            }
        }
    }

    /// What making room does with a glyph, by whether the frame in
    /// preparation uses it.
    #[verifier::when_used_as_spec(spec_of)]
    pub fn of(glyph: CachedGlyph, in_use: bool) -> (eviction: Eviction)
        ensures
            eviction == Eviction::spec_of(glyph, in_use),
    {
        if in_use {
            Eviction::Blocked
        } else {
            match glyph.atlas_id {
                None => Eviction::Discard,
                Some(id) => Eviction::Reclaim { id },
            }
        }
    }
}

/// Eviction can go no further: every glyph that is left, if any, is in use.
pub open spec fn blocked(entries: Seq<Entry>, in_use: Set<u128>) -> bool {
    forall|i: int| 0 <= i < entries.len() ==> in_use.contains((#[trigger] entries[i]).0)
}

/// One step of making room takes the `n` oldest of `entries` from the cache.
/// None of them is in use. If the step gives a rectangle back (`reclaimed`),
/// the last of them is the oldest glyph with texels and owns that rectangle;
/// if it gives none back, none of them has texels and what is left is in use.
pub open spec fn room_made(entries: Seq<Entry>, in_use: Set<u128>, n: int, reclaimed: bool) -> bool {
    &&& 0 <= n <= entries.len()
    &&& forall|i: int| 0 <= i < n ==> !in_use.contains((#[trigger] entries[i]).0)
    &&& if reclaimed {
        &&& n > 0
        &&& entries[n - 1].1.atlas_id is Some
        &&& forall|i: int| 0 <= i < n - 1 ==> (#[trigger] entries[i]).1.atlas_id is None
    } else {
        &&& forall|i: int| 0 <= i < n ==> (#[trigger] entries[i]).1.atlas_id is None
        &&& blocked(entries.skip(n), in_use)
    }
}

/// What one step of making room takes is fixed by the cache and by what is
/// in use.
pub proof fn lemma_room_made_once(
    entries: Seq<Entry>,
    in_use: Set<u128>,
    n: int,
    reclaimed: bool,
    m: int,
    other: bool,
)
    requires
        room_made(entries, in_use, n, reclaimed),
        room_made(entries, in_use, m, other),
    ensures
        n == m,
        reclaimed == other,
{
    if n < m {
        // The step that went on to `m` took `entries[n]`, out of use and,
        // as it went further, without texels.
        assert(!in_use.contains(entries[n].0));
        if reclaimed {
            assert(entries[n - 1].1.atlas_id is None);
        } else {
            assert(entries.skip(n)[0] == entries[n]);
        }
    } else if m < n {
        assert(!in_use.contains(entries[m].0));
        if other {
            assert(entries[m - 1].1.atlas_id is None);
        } else {
            assert(entries.skip(m)[0] == entries[m]);
        }
    } else if reclaimed != other {
        assert(entries[n - 1].1.atlas_id is None);
    }
}

/// A step of making room is an eviction.
pub proof fn lemma_room_made_evicts(
    entries: Seq<Entry>,
    in_use: Set<u128>,
    n: int,
    reclaimed: bool,
)
    requires
        room_made(entries, in_use, n, reclaimed),
    ensures
        evicted_to(entries, entries.skip(n), in_use),
{
}

/// Where the oldest glyph is in use, every glyph is.
pub proof fn lemma_oldest_in_use_blocks(entries: Seq<Entry>, in_use: Set<u128>)
    requires
        in_use_last(entries, in_use),
        entries.len() > 0,
        in_use.contains(entries[0].0),
    ensures
        blocked(entries, in_use),
{
}

/// Eviction leaves the glyphs in use the most recent ones.
pub proof fn lemma_evicted_in_use_last(before: Seq<Entry>, after: Seq<Entry>, in_use: Set<u128>)
    requires
        in_use_last(before, in_use),
        evicted_to(before, after, in_use),
    ensures
        in_use_last(after, in_use),
{
    let n = before.len() - after.len();
    assert forall|i: int, j: int|
        0 <= i <= j < after.len() && in_use.contains((#[trigger] after[i]).0) implies in_use.contains(
        (#[trigger] after[j]).0,
    ) by {
        assert(after[i] == before[i + n]);
        assert(after[j] == before[j + n]);
    }
}

/// A use of a key, which brings its glyph into use, leaves the glyphs in use
/// the most recent ones.
pub proof fn lemma_promote_in_use_last(entries: Seq<Entry>, in_use: Set<u128>, key: u128)
    requires
        keys_distinct(entries),
        in_use_last(entries, in_use),
    ensures
        in_use_last(promote(entries, key), in_use.insert(key)),
{
    let used = in_use.insert(key);
    if holds_key(entries, key) {
        let at = index_of_key(entries, key);
        let moved = entries.remove(at).push(entries[at]);
        let last = moved.len() - 1;
        assert forall|i: int, j: int|
            0 <= i <= j < moved.len() && used.contains((#[trigger] moved[i]).0) implies used.contains(
            (#[trigger] moved[j]).0,
        ) by {
            if j < last {
                let from = if i < at {
                    i
                } else {
                    i + 1
                };
                let to = if j < at {
                    j
                } else {
                    j + 1
                };
                assert(moved[i] == entries[from]);
                assert(moved[j] == entries[to]);
                if from < at {
                    assert(entries[from].0 != entries[at].0);
                } else {
                    assert(entries[at].0 != entries[from].0);
                }
            }
        }
    } else {
        assert forall|i: int, j: int|
            0 <= i <= j < entries.len() && used.contains((#[trigger] entries[i]).0)
                implies used.contains((#[trigger] entries[j]).0) by {
            assert(entries[i].0 != key);
        }
    }
}

/// Filing a glyph under a new key, which brings it into use, leaves the
/// glyphs in use the most recent ones.
pub proof fn lemma_push_in_use_last(entries: Seq<Entry>, in_use: Set<u128>, entry: Entry)
    requires
        !holds_key(entries, entry.0),
        in_use_last(entries, in_use),
    ensures
        in_use_last(entries.push(entry), in_use.insert(entry.0)),
{
    let used = in_use.insert(entry.0);
    let grown = entries.push(entry);
    assert forall|i: int, j: int|
        0 <= i <= j < grown.len() && used.contains((#[trigger] grown[i]).0) implies used.contains(
        (#[trigger] grown[j]).0,
    ) by {
        if j < entries.len() {
            assert(grown[i] == entries[i]);
            assert(grown[j] == entries[j]);
            assert(entries[i].0 != entry.0);
        }
    }
}

/// In books that are in order, two glyphs with regions never share a texel,
/// and each region lies in the square of the plane.
pub proof fn lemma_book_no_overlap(
    entries: Seq<Entry>,
    regions: Map<u32, Rect>,
    kind: Kind,
    side: int,
    i: int,
    j: int,
)
    requires
        book_valid(entries, regions, kind, side),
        0 <= i < entries.len(),
        0 <= j < entries.len(),
        i != j,
        entries[i].1.placement.region is Some,
        entries[j].1.placement.region is Some,
    ensures
        entries[i].1.placement.region->0.disjoint(entries[j].1.placement.region->0),
        entries[i].1.placement.region->0.within(side),
{
    let a = entries[i].1;
    let b = entries[j].1;
    assert(glyph_wf(entries[i], kind));
    assert(glyph_wf(entries[j], kind));
    assert(housed(a, regions));
    assert(housed(b, regions));
    let ia = a.atlas_id->0;
    let ib = b.atlas_id->0;
    if i < j {
        assert(entries[i].1.atlas_id != entries[j].1.atlas_id);
    } else {
        assert(entries[j].1.atlas_id != entries[i].1.atlas_id);
    }
    assert(ia != ib);
    assert(regions[ia].disjoint(regions[ib]));
    lemma_regions_disjoint(
        a.placement.region->0,
        b.placement.region->0,
        regions[ia],
        regions[ib],
    );
    assert(regions[ia].within(side));
}

/// A use of a key keeps the books in order.
pub proof fn lemma_book_promote(
    entries: Seq<Entry>,
    regions: Map<u32, Rect>,
    kind: Kind,
    side: int,
    key: u128,
)
    requires
        book_valid(entries, regions, kind, side),
    ensures
        book_valid(promote(entries, key), regions, kind, side),
{
    if holds_key(entries, key) {
        let i = index_of_key(entries, key);
        let moved = entries.remove(i).push(entries[i]);
        let last = moved.len() - 1;
        assert(moved.len() == entries.len());
        assert forall|k: int| 0 <= k < moved.len() implies #[trigger] moved[k] == entries[if k
            == last {
            i
        } else if k < i {
            k
        } else {
            k + 1
        }] by {}
        assert forall|id: u32| #[trigger] regions.contains_key(id) implies owns(moved, id) by {
            assert(owns(entries, id));
            let w = choose|w: int|
                0 <= w < entries.len() && (#[trigger] entries[w]).1.atlas_id == Some(id);
            let k = if w == i {
                last
            } else if w < i {
                w
            } else {
                w - 1
            };
            assert(moved[k] == entries[w]);
        }
    }
}

/// Filing a glyph without a region under a new key keeps the books in order.
pub proof fn lemma_book_push_empty(
    entries: Seq<Entry>,
    regions: Map<u32, Rect>,
    kind: Kind,
    side: int,
    entry: Entry,
)
    requires
        book_valid(entries, regions, kind, side),
        !holds_key(entries, entry.0),
        glyph_wf(entry, kind),
        entry.1.atlas_id is None,
    ensures
        book_valid(entries.push(entry), regions, kind, side),
{
    let grown = entries.push(entry);
    assert forall|id: u32| #[trigger] regions.contains_key(id) implies owns(grown, id) by {
        assert(owns(entries, id));
        let w = choose|w: int|
            0 <= w < entries.len() && (#[trigger] entries[w]).1.atlas_id == Some(id);
        assert(grown[w] == entries[w]);
    }
}

/// Filing a glyph under a new key, with a region in a rectangle that the
/// packer has just handed out, keeps the books in order.
pub proof fn lemma_book_push_placed(
    entries: Seq<Entry>,
    regions: Map<u32, Rect>,
    kind: Kind,
    side: int,
    entry: Entry,
    slot: Slot,
    width: int,
    height: int,
)
    requires
        book_valid(entries, regions, kind, side),
        slot_is_free(regions, side, slot, width, height),
        !holds_key(entries, entry.0),
        glyph_wf(entry, kind),
        entry.1.atlas_id == Some(slot.id),
        entry.1.placement.region is Some,
        entry.1.placement.region->0.inside(slot.rect),
    ensures
        book_valid(entries.push(entry), regions.insert(slot.id, slot.rect), kind, side),
{
    let grown = entries.push(entry);
    let more = regions.insert(slot.id, slot.rect);
    crate::packer::lemma_packing_grows(regions, side, slot, width, height);
    assert forall|i: int|
        0 <= i < grown.len() && (#[trigger] grown[i]).1.atlas_id is Some implies housed(
        grown[i].1,
        more,
    ) by {
        if i < entries.len() {
            assert(grown[i] == entries[i]);
            assert(housed(entries[i].1, regions));
        }
    }
    assert forall|i: int, j: int|
        0 <= i < j < grown.len() && (#[trigger] grown[i]).1.atlas_id is Some
            implies grown[i].1.atlas_id != (#[trigger] grown[j]).1.atlas_id by {
        assert(grown[i] == entries[i]);
        assert(housed(entries[i].1, regions));
        if j < entries.len() {
            assert(grown[j] == entries[j]);
        }
    }
    assert forall|id: u32| #[trigger] more.contains_key(id) implies owns(grown, id) by {
        if id == slot.id {
            assert(grown[entries.len() as int].1.atlas_id == Some(id));
        } else {
            assert(owns(entries, id));
            let w = choose|w: int|
                0 <= w < entries.len() && (#[trigger] entries[w]).1.atlas_id == Some(id);
            assert(grown[w] == entries[w]);
        }
    }
}

/// Taking the oldest entry from the cache, and giving its rectangle back to
/// the packer if it has one, keeps the books in order.
pub proof fn lemma_book_drop_oldest(
    entries: Seq<Entry>,
    regions: Map<u32, Rect>,
    kind: Kind,
    side: int,
)
    requires
        book_valid(entries, regions, kind, side),
        entries.len() > 0,
    ensures
        entries[0].1.atlas_id is None ==> book_valid(entries.drop_first(), regions, kind, side),
        entries[0].1.atlas_id is Some ==> regions.contains_key(entries[0].1.atlas_id->0)
            && book_valid(
            entries.drop_first(),
            regions.remove(entries[0].1.atlas_id->0),
            kind,
            side,
        ),
{
    let rest = entries.drop_first();
    assert forall|k: int| 0 <= k < rest.len() implies #[trigger] rest[k] == entries[k + 1] by {}
    match entries[0].1.atlas_id {
        None => {
            assert forall|id: u32| #[trigger] regions.contains_key(id) implies owns(rest, id) by {
                assert(owns(entries, id));
                let w = choose|w: int|
                    0 <= w < entries.len() && (#[trigger] entries[w]).1.atlas_id == Some(id);
                assert(rest[w - 1] == entries[w]);
            }
        },
        Some(gone) => {
            assert(housed(entries[0].1, regions));
            let fewer = regions.remove(gone);
            assert forall|i: int|
                0 <= i < rest.len() && (#[trigger] rest[i]).1.atlas_id is Some implies housed(
                rest[i].1,
                fewer,
            ) by {
                assert(rest[i] == entries[i + 1]);
                assert(housed(entries[i + 1].1, regions));
                assert(entries[0].1.atlas_id != entries[i + 1].1.atlas_id);
            }
            assert forall|id: u32| #[trigger] fewer.contains_key(id) implies owns(rest, id) by {
                assert(regions.contains_key(id));
                assert(owns(entries, id));
                let w = choose|w: int|
                    0 <= w < entries.len() && (#[trigger] entries[w]).1.atlas_id == Some(id);
                assert(rest[w - 1] == entries[w]);
            }
        },
    }
}

/// Books that are in order stay so in a larger square.
pub proof fn lemma_book_grow(
    entries: Seq<Entry>,
    regions: Map<u32, Rect>,
    kind: Kind,
    side: int,
    larger: int,
)
    requires
        book_valid(entries, regions, kind, side),
        side <= larger,
    ensures
        book_valid(entries, regions, kind, larger),
{
    assert forall|id: u32| #[trigger] regions.contains_key(id) implies regions[id].within(
        larger,
    ) by {
        assert(regions[id].within(side));
    }
}

/// `after` is what eviction has left of `before`: some of the oldest entries
/// are gone, each of them one that eviction may take, and the others are
/// there in their order.
pub open spec fn evicted_to(before: Seq<Entry>, after: Seq<Entry>, in_use: Set<u128>) -> bool {
    &&& after.len() <= before.len()
    &&& after == before.skip(before.len() - after.len())
    &&& forall|i: int|
        0 <= i < before.len() - after.len() ==> evictable(#[trigger] before[i], in_use)
}

/// Eviction may leave the cache as it is.
pub proof fn lemma_evicted_none(entries: Seq<Entry>, in_use: Set<u128>)
    ensures
        evicted_to(entries, entries, in_use),
{
    assert(entries =~= entries.skip(0));
}

/// Evictions compose.
pub proof fn lemma_evicted_twice(a: Seq<Entry>, b: Seq<Entry>, c: Seq<Entry>, in_use: Set<u128>)
    requires
        evicted_to(a, b, in_use),
        evicted_to(b, c, in_use),
    ensures
        evicted_to(a, c, in_use),
{
    let n1 = a.len() - b.len();
    let n2 = b.len() - c.len();
    assert(c =~= a.skip(n1 + n2));
    assert forall|i: int| 0 <= i < n1 + n2 implies evictable(#[trigger] a[i], in_use) by {
        if i >= n1 {
            assert(b[i - n1] == a[i]);
        }
    }
}

/// Eviction brings no key into the cache.
pub proof fn lemma_evicted_holds_no_more(
    before: Seq<Entry>,
    after: Seq<Entry>,
    in_use: Set<u128>,
    key: u128,
)
    requires
        evicted_to(before, after, in_use),
        !holds_key(before, key),
    ensures
        !holds_key(after, key),
{
    let n = before.len() - after.len();
    if holds_key(after, key) {
        let i = index_of_key(after, key);
        assert(before[i + n] == after[i]);
    }
}

/// Eviction never takes a glyph that is in use: such an entry of `before`
/// is still in `after`, as many places nearer to the old end as entries
/// were taken.
pub proof fn lemma_in_use_survives(
    before: Seq<Entry>,
    after: Seq<Entry>,
    in_use: Set<u128>,
    i: int,
)
    requires
        evicted_to(before, after, in_use),
        0 <= i < before.len(),
        in_use.contains(before[i].0),
    ensures
        i >= before.len() - after.len(),
        after[i - (before.len() - after.len())] == before[i],
{
}

/// Eviction takes the oldest first: when an entry is gone, so is every
/// entry that was used less recently.
pub proof fn lemma_oldest_leave_first(
    before: Seq<Entry>,
    after: Seq<Entry>,
    in_use: Set<u128>,
    older: int,
    newer: int,
)
    requires
        evicted_to(before, after, in_use),
        0 <= older <= newer < before.len(),
        !holds_key(after, before[newer].0),
        keys_distinct(before),
    ensures
        !holds_key(after, before[older].0),
{
    let n = before.len() - after.len();
    if newer >= n {
        assert(after[newer - n] == before[newer]);
    }
    if holds_key(after, before[older].0) {
        let i = index_of_key(after, before[older].0);
        assert(after[i] == before[i + n]);
    }
}

/// What eviction leaves of entries with distinct keys has distinct keys, and
/// so it has with an entry under a new key behind it.
pub proof fn lemma_evicted_keys_distinct(
    before: Seq<Entry>,
    after: Seq<Entry>,
    in_use: Set<u128>,
    entry: Entry,
)
    requires
        keys_distinct(before),
        evicted_to(before, after, in_use),
    ensures
        keys_distinct(after),
        !holds_key(before, entry.0) ==> keys_distinct(after.push(entry)),
{
    let n = before.len() - after.len();
    assert forall|a: int, b: int| 0 <= a < b < after.len() implies (#[trigger] after[a]).0 != (
    #[trigger] after[b]).0 by {
        assert(after[a] == before[a + n]);
        assert(after[b] == before[b + n]);
    }
    if !holds_key(before, entry.0) {
        lemma_evicted_holds_no_more(before, after, in_use, entry.0);
        let grown = after.push(entry);
        assert forall|a: int, b: int| 0 <= a < b < grown.len() implies (#[trigger] grown[a]).0 != (
        #[trigger] grown[b]).0 by {
            assert(grown[a] == after[a]);
            if b < after.len() {
                assert(grown[b] == after[b]);
            }
        }
    }
}

} // verus!
