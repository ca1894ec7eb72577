use glyph_atlas::error::AtlasError;
use glyph_atlas::glyph::{GlyphIdentity, SubpixelBin};
use glyph_atlas::inner_atlas::{InnerAtlas, INITIAL_SIZE, MAX_TEXTURE_DIMENSION_2D};
use glyph_atlas::kind::Kind;
use glyph_atlas::placement::Region;

fn text(glyph_id: u16) -> GlyphIdentity {
    GlyphIdentity::Text {
        font_id: 7,
        glyph_id,
        size_bits: 16.0f32.to_bits(),
        x_bin: SubpixelBin::Zero,
        y_bin: SubpixelBin::Zero,
    }
}

fn overlap(a: &Region, b: &Region) -> bool {
    let (ax, ay, aw, ah) = (a.x as u32, a.y as u32, a.width as u32, a.height as u32);
    let (bx, by, bw, bh) = (b.x as u32, b.y as u32, b.width as u32, b.height as u32);
    ax < bx + bw && bx < ax + aw && ay < by + bh && by < ay + ah
}

fn fill_with_squares(atlas: &mut InnerAtlas, first: u16, count: u16) -> Vec<Region> {
    let mut regions = Vec::new();
    for i in 0..count {
        let resident = atlas.ensure_resident(text(first + i), 32, 32).unwrap();
        assert!(!resident.cached);
        regions.push(resident.placement.region.unwrap());
    }
    regions
}

#[test]
fn new_plane_is_empty_and_of_initial_size() {
    let atlas = InnerAtlas::new(Kind::Mask);
    assert_eq!(atlas.size(), 256);
    assert_eq!(atlas.size(), INITIAL_SIZE);
    assert_eq!(atlas.kind(), Kind::Mask);
    assert_eq!(atlas.num_channels(), 1);
    assert!(atlas.resident_glyphs().is_empty());
    assert!(!atlas.is_in_use(text(1)));
}

#[test]
fn color_plane_has_four_channels() {
    let atlas = InnerAtlas::new(Kind::Color { srgb: true });
    assert_eq!(atlas.num_channels(), 4);
}

#[test]
fn sixty_four_squares_fill_the_initial_plane() {
    let mut atlas = InnerAtlas::new(Kind::Mask);
    let regions = fill_with_squares(&mut atlas, 0, 64);
    assert_eq!(atlas.size(), 256);
    assert_eq!(atlas.resident_glyphs().len(), 64);
    for (i, a) in regions.iter().enumerate() {
        assert_eq!((a.width, a.height), (32, 32));
        assert!(a.x as u32 + 32 <= 256 && a.y as u32 + 32 <= 256);
        assert_eq!((a.x % 32, a.y % 32), (0, 0));
        for b in &regions[i + 1..] {
            assert!(!overlap(a, b), "{:?} overlaps {:?}", a, b);
        }
    }
    // Nothing was evicted: every glyph is still a hit at its place.
    for i in 0..64u16 {
        let again = atlas.ensure_resident(text(i), 32, 32).unwrap();
        assert!(again.cached);
        assert_eq!(again.placement.region, Some(regions[i as usize]));
    }
}

#[test]
fn full_plane_in_use_is_exhausted_until_it_grows() {
    let mut atlas = InnerAtlas::new(Kind::Mask);
    let regions = fill_with_squares(&mut atlas, 0, 64);
    for i in 64..70u16 {
        assert_eq!(atlas.ensure_resident(text(i), 32, 32), Err(AtlasError::AtlasExhausted));
        assert!(!atlas.is_in_use(text(i)));
    }
    // No eviction occurred.
    assert_eq!(atlas.resident_glyphs().len(), 64);
    assert_eq!(atlas.size(), 256);

    assert!(atlas.grow());
    assert_eq!(atlas.size(), 512);
    // Growth moved nothing.
    let after_growth = atlas.resident_glyphs();
    assert_eq!(after_growth.len(), 64);
    for glyph in &after_growth {
        let id = match glyph.identity {
            GlyphIdentity::Text { glyph_id, .. } => glyph_id,
            GlyphIdentity::Custom { .. } => unreachable!(),
        };
        assert_eq!(glyph.placement.region, Some(regions[id as usize]));
        assert!(atlas.is_in_use(glyph.identity));
    }

    let mut all = regions.clone();
    for i in 64..70u16 {
        let resident = atlas.ensure_resident(text(i), 32, 32).unwrap();
        assert!(!resident.cached);
        let region = resident.placement.region.unwrap();
        assert!(region.x as u32 + 32 <= 512 && region.y as u32 + 32 <= 512);
        all.push(region);
    }
    assert_eq!(atlas.resident_glyphs().len(), 70);
    for (i, a) in all.iter().enumerate() {
        for b in &all[i + 1..] {
            assert!(!overlap(a, b));
        }
    }
    for i in 0..64u16 {
        assert!(atlas.ensure_resident(text(i), 32, 32).unwrap().cached);
    }
}

#[test]
fn glyph_is_a_hit_after_trim() {
    let mut atlas = InnerAtlas::new(Kind::Mask);
    let first = atlas.ensure_resident(text(1), 10, 10).unwrap();
    assert!(!first.cached);
    assert!(atlas.is_in_use(text(1)));
    atlas.trim();
    assert!(!atlas.is_in_use(text(1)));
    let second = atlas.ensure_resident(text(1), 10, 10).unwrap();
    assert!(second.cached);
    assert_eq!(second.placement, first.placement);
    assert!(atlas.is_in_use(text(1)));
}

#[test]
fn hit_keeps_the_first_placement_whatever_size_is_asked() {
    let mut atlas = InnerAtlas::new(Kind::Mask);
    let first = atlas.ensure_resident(text(1), 10, 12).unwrap();
    let second = atlas.ensure_resident(text(1), 40, 0).unwrap();
    assert!(second.cached);
    assert_eq!(second.placement, first.placement);
    assert_eq!(first.placement.region.map(|r| (r.width, r.height)), Some((10, 12)));
    assert_eq!(first.placement.channels, 1);
}

#[test]
fn least_recently_used_glyph_is_evicted_first() {
    let mut atlas = InnerAtlas::new(Kind::Mask);
    let (a, b, c) = (text(1), text(2), text(3));
    // Each glyph takes one half of the plane.
    let placed_a = atlas.ensure_resident(a, 256, 128).unwrap();
    let placed_b = atlas.ensure_resident(b, 256, 128).unwrap();
    assert!(atlas.ensure_resident(a, 256, 128).unwrap().cached);
    atlas.trim();

    let placed_c = atlas.ensure_resident(c, 256, 128).unwrap();
    assert!(!placed_c.cached);
    assert_eq!(atlas.size(), 256);
    // `b` went, `a` stayed.
    let left: Vec<GlyphIdentity> = atlas.resident_glyphs().iter().map(|g| g.identity).collect();
    assert_eq!(left, vec![c, a]);
    assert_eq!(placed_c.placement.region, placed_b.placement.region);
    let a_again = atlas.ensure_resident(a, 256, 128).unwrap();
    assert!(a_again.cached);
    assert_eq!(a_again.placement, placed_a.placement);
    // Everything is in use now, so `b` finds no room.
    assert_eq!(atlas.ensure_resident(b, 256, 128), Err(AtlasError::AtlasExhausted));
}

#[test]
fn eviction_goes_on_until_there_is_room() {
    let mut atlas = InnerAtlas::new(Kind::Mask);
    fill_with_squares(&mut atlas, 0, 64);
    atlas.trim();
    let big = atlas.ensure_resident(text(1000), 256, 256).unwrap();
    assert_eq!(
        big.placement.region,
        Some(Region { x: 0, y: 0, width: 256, height: 256 })
    );
    let left: Vec<GlyphIdentity> = atlas.resident_glyphs().iter().map(|g| g.identity).collect();
    assert_eq!(left, vec![text(1000)]);
}

#[test]
fn glyphs_in_use_are_never_evicted() {
    let mut atlas = InnerAtlas::new(Kind::Mask);
    let (a, b, c) = (text(1), text(2), text(3));
    let placed_a = atlas.ensure_resident(a, 256, 128).unwrap();
    atlas.trim();
    let placed_b = atlas.ensure_resident(b, 256, 128).unwrap();
    // Used in this frame: although `a` is the oldest, it may not go.
    assert!(atlas.ensure_resident(a, 256, 128).unwrap().cached);

    assert_eq!(atlas.ensure_resident(c, 256, 128), Err(AtlasError::AtlasExhausted));
    assert!(atlas.is_in_use(a) && atlas.is_in_use(b) && !atlas.is_in_use(c));
    let left: Vec<GlyphIdentity> = atlas.resident_glyphs().iter().map(|g| g.identity).collect();
    assert_eq!(left, vec![a, b]);
    assert_eq!(atlas.ensure_resident(a, 1, 1).unwrap().placement, placed_a.placement);
    assert_eq!(atlas.ensure_resident(b, 1, 1).unwrap().placement, placed_b.placement);
}

#[test]
fn eviction_stops_at_the_first_glyph_in_use() {
    let mut atlas = InnerAtlas::new(Kind::Mask);
    let (a, b, c) = (text(1), text(2), text(3));
    atlas.ensure_resident(a, 256, 128).unwrap();
    atlas.trim();
    atlas.ensure_resident(b, 256, 128).unwrap();
    // `a` is not in use and goes, but that makes no room for the whole plane.
    assert_eq!(atlas.ensure_resident(c, 256, 256), Err(AtlasError::AtlasExhausted));
    let left: Vec<GlyphIdentity> = atlas.resident_glyphs().iter().map(|g| g.identity).collect();
    assert_eq!(left, vec![b]);
    assert!(!atlas.ensure_resident(a, 256, 128).unwrap().cached);
}

#[test]
fn empty_plane_refuses_what_is_larger_than_the_plane() {
    let mut atlas = InnerAtlas::new(Kind::Mask);
    assert_eq!(atlas.ensure_resident(text(1), 257, 1), Err(AtlasError::AtlasExhausted));
    assert_eq!(atlas.ensure_resident(text(1), 1, 257), Err(AtlasError::AtlasExhausted));
    assert!(atlas.resident_glyphs().is_empty());
    assert!(atlas.ensure_resident(text(1), 256, 256).is_ok());
}

#[test]
fn glyph_without_texels_takes_no_room() {
    let mut atlas = InnerAtlas::new(Kind::Color { srgb: false });
    let wide = atlas.ensure_resident(text(500), 0, 10).unwrap();
    assert!(!wide.cached);
    assert_eq!(wide.placement.region, None);
    assert_eq!(wide.placement.channels, 4);
    let high = atlas.ensure_resident(text(501), 10, 0).unwrap();
    assert_eq!(high.placement.region, None);
    assert!(atlas.is_in_use(text(500)) && atlas.is_in_use(text(501)));
    for _ in 0..3 {
        let again = atlas.ensure_resident(text(500), 0, 10).unwrap();
        assert!(again.cached);
        assert_eq!(again.placement, wide.placement);
    }
    assert!(atlas.resident_glyphs().is_empty());
    // The whole plane is still free.
    fill_with_squares(&mut atlas, 0, 64);
    assert_eq!(atlas.size(), 256);
    assert_eq!(atlas.resident_glyphs().len(), 64);
}

#[test]
fn glyphs_without_texels_leave_the_cache_when_room_is_made() {
    let mut atlas = InnerAtlas::new(Kind::Mask);
    let (empty, a, b) = (text(1), text(2), text(3));
    atlas.ensure_resident(empty, 0, 0).unwrap();
    atlas.ensure_resident(a, 256, 256).unwrap();
    atlas.trim();
    // Making room takes the empty glyph, which gives nothing, and then `a`.
    let placed = atlas.ensure_resident(b, 256, 256).unwrap();
    assert!(placed.placement.region.is_some());
    assert!(!atlas.ensure_resident(empty, 0, 0).unwrap().cached);
}

#[test]
fn glyph_without_texels_in_use_is_not_evicted() {
    let mut atlas = InnerAtlas::new(Kind::Mask);
    let (empty, a, b) = (text(1), text(2), text(3));
    atlas.ensure_resident(empty, 0, 0).unwrap();
    atlas.ensure_resident(a, 256, 256).unwrap();
    assert_eq!(atlas.ensure_resident(b, 256, 256), Err(AtlasError::AtlasExhausted));
    assert!(atlas.ensure_resident(empty, 0, 0).unwrap().cached);
    assert!(atlas.ensure_resident(a, 256, 256).unwrap().cached);
}

#[test]
fn trim_twice_is_trim_once() {
    let mut atlas = InnerAtlas::new(Kind::Mask);
    let regions = fill_with_squares(&mut atlas, 0, 5);
    atlas.trim();
    let once = atlas.resident_glyphs();
    atlas.trim();
    let twice = atlas.resident_glyphs();
    assert_eq!(once, twice);
    assert_eq!(once.len(), 5);
    for i in 0..5u16 {
        assert!(!atlas.is_in_use(text(i)));
    }
    for i in 0..5u16 {
        let again = atlas.ensure_resident(text(i), 32, 32).unwrap();
        assert!(again.cached);
        assert_eq!(again.placement.region, Some(regions[i as usize]));
    }
}

#[test]
fn residents_come_most_recent_first() {
    let mut atlas = InnerAtlas::new(Kind::Mask);
    atlas.ensure_resident(text(1), 8, 8).unwrap();
    atlas.ensure_resident(text(2), 0, 8).unwrap();
    atlas.ensure_resident(text(3), 8, 8).unwrap();
    atlas.ensure_resident(text(1), 8, 8).unwrap();
    let order: Vec<GlyphIdentity> = atlas.resident_glyphs().iter().map(|g| g.identity).collect();
    assert_eq!(order, vec![text(1), text(3)]);
}

#[test]
fn plane_doubles_up_to_the_maximum() {
    let mut atlas = InnerAtlas::new(Kind::Mask);
    let placed = atlas.ensure_resident(text(1), 100, 50).unwrap();
    let mut sizes = Vec::new();
    while atlas.grow() {
        sizes.push(atlas.size());
    }
    assert_eq!(sizes, vec![512, 1024, 2048, 4096, 8192, 16384]);
    assert_eq!(atlas.size(), MAX_TEXTURE_DIMENSION_2D);
    assert!(!atlas.grow());
    assert_eq!(atlas.size(), 16384);
    let again = atlas.ensure_resident(text(1), 100, 50).unwrap();
    assert!(again.cached);
    assert_eq!(again.placement, placed.placement);
}

#[test]
fn growing_request_grows_once_for_a_full_plane() {
    let mut atlas = InnerAtlas::new(Kind::Mask);
    let regions = fill_with_squares(&mut atlas, 0, 64);
    let extra = atlas.ensure_resident_or_grow(text(64), 32, 32).unwrap();
    assert!(!extra.cached);
    assert_eq!(atlas.size(), 512);
    assert_eq!(atlas.resident_glyphs().len(), 65);
    let region = extra.placement.region.unwrap();
    for other in &regions {
        assert!(!overlap(&region, other));
    }
}

#[test]
fn growing_request_fails_only_at_the_maximum() {
    let mut atlas = InnerAtlas::new(Kind::Mask);
    let kept = atlas.ensure_resident(text(1), 16, 16).unwrap();
    // Wider than any texture.
    assert_eq!(
        atlas.ensure_resident_or_grow(text(2), 16385, 1),
        Err(AtlasError::AtlasAtMaximumSize)
    );
    assert_eq!(atlas.size(), 16384);
    assert!(!atlas.is_in_use(text(2)));
    let again = atlas.ensure_resident(text(1), 16, 16).unwrap();
    assert!(again.cached);
    assert_eq!(again.placement, kept.placement);
}

#[test]
fn growing_request_does_not_grow_for_a_hit_or_an_empty_glyph() {
    let mut atlas = InnerAtlas::new(Kind::Mask);
    fill_with_squares(&mut atlas, 0, 64);
    assert!(atlas.ensure_resident_or_grow(text(3), 32, 32).unwrap().cached);
    assert_eq!(atlas.ensure_resident_or_grow(text(99), 0, 0).unwrap().placement.region, None);
    assert_eq!(atlas.size(), 256);
}

#[test]
fn nothing_is_evicted_while_the_packer_has_room() {
    let mut atlas = InnerAtlas::new(Kind::Mask);
    fill_with_squares(&mut atlas, 0, 10);
    atlas.trim();
    let placed = atlas.ensure_resident(text(100), 32, 32).unwrap();
    assert!(!placed.cached);
    assert_eq!(atlas.resident_glyphs().len(), 11);
    for i in 0..10u16 {
        assert!(atlas.ensure_resident(text(i), 32, 32).unwrap().cached);
    }
}

#[test]
fn new_plane_has_room_for_a_glyph_of_its_size() {
    let mut atlas = InnerAtlas::new(Kind::Mask);
    let placed = atlas.ensure_resident(text(1), 256, 256).unwrap();
    assert_eq!(
        placed.placement.region,
        Some(Region { x: 0, y: 0, width: 256, height: 256 })
    );
}

#[test]
fn making_room_in_an_empty_plane_does_nothing() {
    let mut atlas = InnerAtlas::new(Kind::Mask);
    assert!(!atlas.reclaim_oldest());
    assert!(atlas.resident_glyphs().is_empty());
    assert!(atlas.ensure_resident(text(1), 256, 256).is_ok());
}

#[test]
fn making_room_takes_the_oldest_glyph_with_texels() {
    let mut atlas = InnerAtlas::new(Kind::Mask);
    let (a, b) = (text(1), text(2));
    let placed_a = atlas.ensure_resident(a, 256, 128).unwrap();
    let placed_b = atlas.ensure_resident(b, 256, 128).unwrap();
    atlas.trim();
    assert!(atlas.reclaim_oldest());
    let left: Vec<GlyphIdentity> = atlas.resident_glyphs().iter().map(|g| g.identity).collect();
    assert_eq!(left, vec![b]);
    // The rectangle of `a` is free again, that of `b` is not.
    let placed_c = atlas.ensure_resident(text(3), 256, 128).unwrap();
    assert_eq!(placed_c.placement.region, placed_a.placement.region);
    let b_again = atlas.ensure_resident(b, 256, 128).unwrap();
    assert!(b_again.cached);
    assert_eq!(b_again.placement, placed_b.placement);
}

#[test]
fn making_room_discards_older_glyphs_without_texels() {
    let mut atlas = InnerAtlas::new(Kind::Mask);
    let (empty, sized, later) = (text(1), text(2), text(3));
    atlas.ensure_resident(empty, 0, 0).unwrap();
    atlas.ensure_resident(sized, 256, 256).unwrap();
    atlas.ensure_resident(later, 0, 4).unwrap();
    atlas.trim();
    assert!(atlas.reclaim_oldest());
    assert!(atlas.resident_glyphs().is_empty());
    // The glyph without texels behind the one that gave room is still there.
    assert!(atlas.ensure_resident(later, 0, 4).unwrap().cached);
    assert!(!atlas.ensure_resident(empty, 0, 0).unwrap().cached);
    assert!(!atlas.ensure_resident(sized, 256, 256).unwrap().cached);
}

#[test]
fn making_room_gives_nothing_back_when_no_glyph_has_texels() {
    let mut atlas = InnerAtlas::new(Kind::Mask);
    atlas.ensure_resident(text(1), 0, 0).unwrap();
    atlas.ensure_resident(text(2), 0, 9).unwrap();
    atlas.trim();
    assert!(!atlas.reclaim_oldest());
    assert!(!atlas.ensure_resident(text(1), 0, 0).unwrap().cached);
    assert!(!atlas.ensure_resident(text(2), 0, 9).unwrap().cached);
}

#[test]
fn making_room_stops_at_the_glyphs_in_use() {
    let mut atlas = InnerAtlas::new(Kind::Mask);
    let (old_empty, a, b) = (text(1), text(2), text(3));
    atlas.ensure_resident(old_empty, 0, 0).unwrap();
    atlas.trim();
    let placed_a = atlas.ensure_resident(a, 256, 128).unwrap();
    atlas.ensure_resident(b, 0, 0).unwrap();
    // The glyph out of use goes; the two in use stay, with texels or not.
    assert!(!atlas.reclaim_oldest());
    let left: Vec<GlyphIdentity> = atlas.resident_glyphs().iter().map(|g| g.identity).collect();
    assert_eq!(left, vec![a]);
    assert!(atlas.is_in_use(a) && atlas.is_in_use(b));
    assert!(!atlas.reclaim_oldest());
    assert_eq!(atlas.ensure_resident(a, 1, 1).unwrap().placement, placed_a.placement);
    assert!(atlas.ensure_resident(b, 0, 0).unwrap().cached);
    assert!(!atlas.ensure_resident(old_empty, 0, 0).unwrap().cached);
}

#[test]
fn glyphs_in_use_are_the_most_recent_ones() {
    let mut atlas = InnerAtlas::new(Kind::Mask);
    for i in 0..6u16 {
        atlas.ensure_resident(text(i), 8, 8).unwrap();
    }
    atlas.trim();
    atlas.ensure_resident(text(4), 8, 8).unwrap();
    atlas.ensure_resident(text(1), 8, 8).unwrap();
    let order: Vec<(GlyphIdentity, bool)> = atlas
        .resident_glyphs()
        .iter()
        .map(|g| (g.identity, atlas.is_in_use(g.identity)))
        .collect();
    assert_eq!(
        order,
        vec![
            (text(1), true),
            (text(4), true),
            (text(5), false),
            (text(3), false),
            (text(2), false),
            (text(0), false),
        ]
    );
}

#[test]
fn asking_whether_a_glyph_resides_is_no_use_of_it() {
    let mut atlas = InnerAtlas::new(Kind::Mask);
    let (a, b) = (text(1), text(2));
    assert!(!atlas.is_resident(a));
    atlas.ensure_resident(a, 256, 128).unwrap();
    atlas.ensure_resident(b, 256, 128).unwrap();
    atlas.trim();
    assert!(atlas.is_resident(a) && atlas.is_resident(b));
    assert!(!atlas.is_resident(text(3)));
    assert!(!atlas.is_in_use(a));
    // `a` is still the least recently used glyph and goes first.
    atlas.ensure_resident(text(3), 256, 128).unwrap();
    assert!(!atlas.is_resident(a));
    assert!(atlas.is_resident(b));
    assert!(atlas.is_resident(text(3)));
}

#[test]
fn glyph_without_texels_resides_in_the_plane() {
    let mut atlas = InnerAtlas::new(Kind::Mask);
    atlas.ensure_resident(text(1), 0, 7).unwrap();
    assert!(atlas.is_resident(text(1)));
    assert!(atlas.resident_glyphs().is_empty());
}
