//! The recency cache of an atlas plane, as this library sees it.
//!
//! The cache is `lru`'s `LruCache`, made without a capacity so that nothing
//! leaves it unless this library says so. Verus cannot look inside it, so this
//! module names what the cache holds, oldest entry first, and states how each
//! call that the library makes changes that.

use vstd::prelude::*;
use lru::LruCache;
use rustc_hash::FxHasher;
use std::hash::BuildHasherDefault;
use crate::placement::CachedGlyph;

verus! {

/// An entry of the recency cache: the key of a glyph identity and what the
/// plane remembers of the glyph.
pub type Entry = (u128, CachedGlyph);

/// Some entry of `entries` has the given key.
pub open spec fn holds_key(entries: Seq<Entry>, key: u128) -> bool {
    exists|i: int| 0 <= i < entries.len() && (#[trigger] entries[i]).0 == key
}

/// No two entries have the same key.
pub open spec fn keys_distinct(entries: Seq<Entry>) -> bool {
    forall|i: int, j: int|
        0 <= i < j < entries.len() ==> (#[trigger] entries[i]).0 != (#[trigger] entries[j]).0
}

/// The position of an entry with the given key, where there is one.
pub open spec fn index_of_key(entries: Seq<Entry>, key: u128) -> int {
    choose|i: int| 0 <= i < entries.len() && (#[trigger] entries[i]).0 == key
}

/// What is filed under the given key, if anything.
pub open spec fn lookup(entries: Seq<Entry>, key: u128) -> Option<CachedGlyph> {
    if holds_key(entries, key) {
        Some(entries[index_of_key(entries, key)].1)
    } else {
        None
    }
}

/// The entries after a use of `key`: its entry, where there is one, has moved
/// to the most recent end, and the others have kept their order.
pub open spec fn promote(entries: Seq<Entry>, key: u128) -> Seq<Entry> {
    if holds_key(entries, key) {
        let i = index_of_key(entries, key);
        entries.remove(i).push(entries[i])
    } else {
        entries
    }
}

/// The least recently used entry, if there is any entry.
pub open spec fn oldest(entries: Seq<Entry>) -> Option<Entry> {
    if entries.len() > 0 {
        Some(entries[0])
    } else {
        None
    }
}

/// The entries without the least recently used one.
pub open spec fn without_oldest(entries: Seq<Entry>) -> Seq<Entry> {
    if entries.len() > 0 {
        entries.drop_first()
    } else {
        entries
    }
}

/// Among entries with distinct keys, what is filed under the key of an
/// entry is that entry.
pub proof fn lemma_lookup_finds(entries: Seq<Entry>, i: int)
    requires
        keys_distinct(entries),
        0 <= i < entries.len(),
    ensures
        holds_key(entries, entries[i].0),
        index_of_key(entries, entries[i].0) == i,
        lookup(entries, entries[i].0) == Some(entries[i].1),
{
    let key = entries[i].0;
    assert(holds_key(entries, key));
    let found = index_of_key(entries, key);
    assert(entries[found].0 == key);
    if found < i {
        assert(entries[found].0 != entries[i].0);
    } else if i < found {
        assert(entries[i].0 != entries[found].0);
    }
}

#[verifier::external_type_specification]
#[verifier::external_body]
#[verifier::reject_recursive_types(K)]
#[verifier::reject_recursive_types(V)]
#[verifier::reject_recursive_types(S)]
pub struct ExLruCache<K, V, S>(LruCache<K, V, S>);

#[verifier::external_type_specification]
#[verifier::external_body]
pub struct ExFxHasher(FxHasher);

#[verifier::external_type_specification]
#[verifier::external_body]
#[verifier::reject_recursive_types(H)]
pub struct ExBuildHasherDefault<H>(BuildHasherDefault<H>);

/// The recency cache of a plane.
pub type GlyphCache = LruCache<u128, CachedGlyph, BuildHasherDefault<FxHasher>>;

/// The entries of `cache` in the order of their last use, the least recently
/// used first. A use is a `put` or a `get` of the key.
pub uninterp spec fn cache_entries(cache: GlyphCache) -> Seq<Entry>;

/// `cache` has no capacity: it was made by `LruCache::unbounded_with_hasher`,
/// so that a `put` never pushes another entry out.
pub uninterp spec fn cache_is_unbounded(cache: GlyphCache) -> bool;

/// `LruCache::unbounded_with_hasher` with the default `FxHasher` builder: an
/// empty cache that, as `lru` documents, never evicts by itself.
#[verifier::external_body]
pub(crate) fn cache_new() -> (cache: GlyphCache)
    ensures
        cache_entries(cache) == Seq::<Entry>::empty(),
        cache_is_unbounded(cache),
{
    LruCache::unbounded_with_hasher(BuildHasherDefault::default())
}

/// `LruCache::contains`: whether something is filed under `key`; the order
/// of use is not touched.
#[verifier::external_body]
pub(crate) fn cache_contains(cache: &GlyphCache, key: u128) -> (held: bool)
    ensures
        held == holds_key(cache_entries(*cache), key),
{
    cache.contains(&key)
}

/// `LruCache::get`, which gives what is filed under `key` and makes that
/// entry the most recently used one; the value is copied out. A key that is
/// not there changes nothing.
#[verifier::external_body]
pub(crate) fn cache_get(cache: &mut GlyphCache, key: u128) -> (found: Option<CachedGlyph>)
    requires
        keys_distinct(cache_entries(*old(cache))),
    ensures
        found == lookup(cache_entries(*old(cache)), key),
        cache_entries(*final(cache)) == promote(cache_entries(*old(cache)), key),
        cache_is_unbounded(*final(cache)) == cache_is_unbounded(*old(cache)),
{
    cache.get(&key).copied()
}

/// `LruCache::put` of a key that the cache does not hold, into a cache
/// without capacity: the entry is added as the most recently used one and
/// the others stay as they are.
#[verifier::external_body]
pub(crate) fn cache_put(cache: &mut GlyphCache, key: u128, glyph: CachedGlyph)
    requires
        cache_is_unbounded(*old(cache)),
        !holds_key(cache_entries(*old(cache)), key),
    ensures
        cache_entries(*final(cache)) == cache_entries(*old(cache)).push((key, glyph)),
        cache_is_unbounded(*final(cache)),
{
    cache.put(key, glyph);
}

/// `LruCache::peek_lru`: the least recently used entry, copied out; the order
/// of use is not touched.
#[verifier::external_body]
pub(crate) fn cache_peek_lru(cache: &GlyphCache) -> (entry: Option<Entry>)
    ensures
        entry == oldest(cache_entries(*cache)),
{
    cache.peek_lru().map(|(key, glyph)| (*key, *glyph))
}

/// `LruCache::pop_lru`: removes the least recently used entry and returns it;
/// the others keep their order.
#[verifier::external_body]
pub(crate) fn cache_pop_lru(cache: &mut GlyphCache) -> (entry: Option<Entry>)
    ensures
        entry == oldest(cache_entries(*old(cache))),
        cache_entries(*final(cache)) == without_oldest(cache_entries(*old(cache))),
        cache_is_unbounded(*final(cache)) == cache_is_unbounded(*old(cache)),
{
    cache.pop_lru()
}

/// `LruCache::iter`, which walks the entries from the most recently used to
/// the least recently used; each is copied out.
#[verifier::external_body]
pub(crate) fn cache_recent_first(cache: &GlyphCache) -> (entries: Vec<Entry>)
    ensures
        entries@ == cache_entries(*cache).reverse(),
{
    cache.iter().map(|(key, glyph)| (*key, *glyph)).collect()
}

} // verus!
