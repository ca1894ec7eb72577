use glyph_atlas::error::AtlasError;
use glyph_atlas::kind::{ContentType, Kind};
use glyph_atlas::placement::Region;
use glyph_atlas::raster::{bytes_per_row, check_replay, RasterizedGlyph};

fn bitmap(len: usize, content_type: ContentType) -> RasterizedGlyph {
    RasterizedGlyph { data: vec![0u8; len], content_type }
}

#[test]
fn bitmap_of_the_right_size_and_type_is_valid() {
    assert_eq!(bitmap(12, ContentType::Mask).validate(3, 4, Some(ContentType::Mask)), Ok(()));
    assert_eq!(bitmap(48, ContentType::Color).validate(3, 4, Some(ContentType::Color)), Ok(()));
    assert_eq!(bitmap(48, ContentType::Color).validate(3, 4, None), Ok(()));
    assert_eq!(bitmap(0, ContentType::Mask).validate(0, 7, None), Ok(()));
}

#[test]
fn bitmap_of_another_size_is_a_mismatch() {
    let mismatch = Err(AtlasError::RasterizationMismatch);
    assert_eq!(bitmap(11, ContentType::Mask).validate(3, 4, None), mismatch);
    assert_eq!(bitmap(13, ContentType::Mask).validate(3, 4, None), mismatch);
    assert_eq!(bitmap(12, ContentType::Color).validate(3, 4, None), mismatch);
    assert_eq!(bitmap(48, ContentType::Mask).validate(3, 4, None), mismatch);
    assert_eq!(bitmap(12, ContentType::Mask).validate(4, 4, None), mismatch);
}

#[test]
fn bitmap_of_another_content_type_is_a_mismatch() {
    let mismatch = Err(AtlasError::RasterizationMismatch);
    assert_eq!(bitmap(12, ContentType::Mask).validate(3, 4, Some(ContentType::Color)), mismatch);
    assert_eq!(bitmap(48, ContentType::Color).validate(3, 4, Some(ContentType::Mask)), mismatch);
}

#[test]
fn largest_request_does_not_overflow() {
    let mismatch = Err(AtlasError::RasterizationMismatch);
    assert_eq!(bitmap(4, ContentType::Color).validate(65535, 65535, None), mismatch);
    // 65535 * 65535 * 4 is 4 modulo 2^32.
    assert_eq!(bitmap(4, ContentType::Color).validate(u16::MAX, u16::MAX, Some(ContentType::Color)), mismatch);
}

#[test]
fn replay_wants_the_bitmap_of_the_first_time() {
    let region = Region { x: 5, y: 6, width: 3, height: 4 };
    let mismatch = Err(AtlasError::RasterizationMismatch);
    assert_eq!(check_replay(Kind::Mask, region, Some(&bitmap(12, ContentType::Mask))), Ok(()));
    assert_eq!(
        check_replay(Kind::Color { srgb: true }, region, Some(&bitmap(48, ContentType::Color))),
        Ok(())
    );
    assert_eq!(check_replay(Kind::Mask, region, None), mismatch);
    assert_eq!(check_replay(Kind::Mask, region, Some(&bitmap(48, ContentType::Color))), mismatch);
    assert_eq!(check_replay(Kind::Mask, region, Some(&bitmap(9, ContentType::Mask))), mismatch);
    assert_eq!(
        check_replay(Kind::Color { srgb: false }, region, Some(&bitmap(12, ContentType::Mask))),
        mismatch
    );
}

#[test]
fn row_stride_counts_the_channels() {
    assert_eq!(bytes_per_row(Kind::Mask, 10), 10);
    assert_eq!(bytes_per_row(Kind::Color { srgb: true }, 10), 40);
    assert_eq!(bytes_per_row(Kind::Color { srgb: false }, 65535), 262140);
    assert_eq!(bytes_per_row(Kind::Mask, 0), 0);
}
