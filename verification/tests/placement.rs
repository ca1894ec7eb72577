use glyph_atlas::book::Eviction;
use glyph_atlas::glyph::{GlyphIdentity, SubpixelBin};
use glyph_atlas::packer::Rect;
use glyph_atlas::placement::{CachedGlyph, Placement, Region};

fn rect(min_x: i32, min_y: i32, max_x: i32, max_y: i32) -> Rect {
    Rect { min_x, min_y, max_x, max_y }
}

fn glyph(region: Option<Region>, atlas_id: Option<u32>) -> CachedGlyph {
    CachedGlyph {
        identity: GlyphIdentity::Custom {
            glyph_id: 1,
            width: 4,
            height: 4,
            x_bin: SubpixelBin::Zero,
            y_bin: SubpixelBin::Zero,
        },
        placement: Placement { region, channels: 1 },
        atlas_id,
    }
}

#[test]
fn region_sits_in_the_corner_of_its_rectangle() {
    assert_eq!(
        Region::in_rect(rect(32, 64, 42, 80), 10, 12),
        Some(Region { x: 32, y: 64, width: 10, height: 12 })
    );
    assert_eq!(
        Region::in_rect(rect(0, 0, 1, 1), 1, 1),
        Some(Region { x: 0, y: 0, width: 1, height: 1 })
    );
    assert_eq!(
        Region::in_rect(rect(65535, 65535, 131070, 131070), 65535, 65535),
        Some(Region { x: 65535, y: 65535, width: 65535, height: 65535 })
    );
}

#[test]
fn region_needs_texels() {
    assert_eq!(Region::in_rect(rect(0, 0, 10, 10), 0, 5), None);
    assert_eq!(Region::in_rect(rect(0, 0, 10, 10), 5, 0), None);
}

#[test]
fn region_needs_a_rectangle_that_is_large_enough() {
    assert_eq!(Region::in_rect(rect(5, 5, 14, 20), 10, 10), None);
    assert_eq!(Region::in_rect(rect(5, 5, 20, 14), 10, 10), None);
    assert_eq!(Region::in_rect(rect(5, 5, 4, 4), 1, 1), None);
    assert_eq!(Region::in_rect(rect(0, 0, i32::MIN, i32::MIN), 1, 1), None);
}

#[test]
fn region_needs_a_corner_it_can_name() {
    assert_eq!(Region::in_rect(rect(-1, 0, 10, 10), 1, 1), None);
    assert_eq!(Region::in_rect(rect(0, -1, 10, 10), 1, 1), None);
    assert_eq!(Region::in_rect(rect(65536, 0, 70000, 10), 1, 1), None);
    assert_eq!(Region::in_rect(rect(0, 65536, 10, 70000), 1, 1), None);
    assert_eq!(Region::in_rect(rect(i32::MIN, i32::MIN, i32::MAX, i32::MAX), 1, 1), None);
}

#[test]
fn glyph_in_use_blocks_eviction() {
    let region = Region { x: 0, y: 0, width: 4, height: 4 };
    assert_eq!(Eviction::of(glyph(Some(region), Some(9)), true), Eviction::Blocked);
    assert_eq!(Eviction::of(glyph(None, None), true), Eviction::Blocked);
}

#[test]
fn glyph_without_texels_is_discarded() {
    assert_eq!(Eviction::of(glyph(None, None), false), Eviction::Discard);
}

#[test]
fn glyph_with_texels_gives_its_rectangle_back() {
    let region = Region { x: 0, y: 0, width: 4, height: 4 };
    assert_eq!(
        Eviction::of(glyph(Some(region), Some(9)), false),
        Eviction::Reclaim { id: 9 }
    );
    assert_eq!(
        Eviction::of(glyph(Some(region), Some(u32::MAX)), false),
        Eviction::Reclaim { id: u32::MAX }
    );
}
