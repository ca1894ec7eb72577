//! Residency and placement of glyph bitmaps inside size-limited atlas textures.
//!
//! A [`text_atlas::TextAtlas`] owns one plane per content type. Each plane packs
//! rectangles into a square of texels, remembers where every glyph was put in
//! least-recently-used order, evicts old glyphs when the square is full and
//! doubles the square when eviction is not enough. The library only does the
//! bookkeeping; rasterizing and copying texels to the GPU is the caller's job.

pub mod book;
pub mod cache;
pub mod error;
pub mod glyph;
pub mod inner_atlas;
pub mod kind;
pub mod packer;
pub mod placement;
pub mod raster;
pub mod recency;
pub mod text_atlas;
pub mod viewport;
