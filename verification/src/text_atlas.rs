//! The text atlas: one plane for mask glyphs and one for color glyphs.

use vstd::prelude::*;
use crate::error::AtlasError;
use crate::glyph::GlyphIdentity;
use crate::inner_atlas::{InnerAtlas, PlaneView, Resident, INITIAL_SIZE};
use crate::kind::{ColorMode, ContentType, Kind};
use crate::placement::CachedGlyph;

verus! {

/// A text atlas as a mathematical value.
#[verifier::ext_equal]
pub struct TextAtlasView {
    /// The plane of the color glyphs.
    pub color: PlaneView,
    /// The plane of the mask glyphs.
    pub mask: PlaneView,
    /// The color mode the atlas was made with.
    pub color_mode: ColorMode,
}

impl TextAtlasView {
    /// The plane that holds the glyphs of a content type.
    pub open spec fn plane(self, content_type: ContentType) -> PlaneView {
        match content_type {
            ContentType::Color => self.color,
            ContentType::Mask => self.mask,
        }
    }

    /// The atlas with `plane` in the place of the plane of a content type.
    pub open spec fn with_plane(self, content_type: ContentType, plane: PlaneView) -> TextAtlasView {
        match content_type {
            ContentType::Color => TextAtlasView { color: plane, ..self },
            ContentType::Mask => TextAtlasView { mask: plane, ..self },
        }
    }

    /// Both planes are consistent and each is of the kind that its content
    /// type and the color mode ask for.
    pub open spec fn wf(self) -> bool {
        &&& self.color.wf()
        &&& self.mask.wf()
        &&& self.color.kind == Kind::spec_for_content(ContentType::Color, self.color_mode)
        &&& self.mask.kind == Kind::spec_for_content(ContentType::Mask, self.color_mode)
    }

    /// The atlas at the end of a frame: nothing is in use in either plane.
    pub open spec fn trimmed(self) -> TextAtlasView {
        TextAtlasView { color: self.color.trimmed(), mask: self.mask.trimmed(), ..self }
    }

    /// Ending a frame twice is ending it once, and ending a frame leaves
    /// every glyph where it is.
    pub proof fn lemma_trim_idempotent(self)
        ensures
            self.trimmed().trimmed() == self.trimmed(),
            self.trimmed().color.entries == self.color.entries,
            self.trimmed().mask.entries == self.mask.entries,
            self.trimmed().color.regions == self.color.regions,
            self.trimmed().mask.regions == self.mask.regions,
            self.wf() ==> self.trimmed().wf(),
    {
        self.color.lemma_trim_idempotent();
        self.mask.lemma_trim_idempotent();
    }

    /// A request for a glyph of one content type leaves the plane of the
    /// other as it is, so that no glyph there is moved or evicted.
    pub proof fn lemma_other_plane_untouched(
        self,
        plane: PlaneView,
        content_type: ContentType,
        other: ContentType,
    )
        requires
            other != content_type,
        ensures
            self.with_plane(content_type, plane).plane(other) == self.plane(other),
            self.with_plane(content_type, plane).plane(content_type) == plane,
    {
    }
}

/// An atlas of rasterized glyphs that a renderer draws text from.
pub struct TextAtlas {
    color_atlas: InnerAtlas,
    mask_atlas: InnerAtlas,
    color_mode: ColorMode,
}

impl View for TextAtlas {
    type V = TextAtlasView;

    closed spec fn view(&self) -> TextAtlasView {
        TextAtlasView {
            color: self.color_atlas@,
            mask: self.mask_atlas@,
            color_mode: self.color_mode,
        }
    }
}

impl TextAtlas {
    /// The atlas is consistent: see [`TextAtlasView::wf`].
    pub closed spec fn wf(&self) -> bool {
        &&& self.color_atlas.wf()
        &&& self.mask_atlas.wf()
        &&& self@.wf()
    }

    /// The plane that holds the glyphs of a content type, with its packer
    /// and all.
    pub closed spec fn inner(&self, content_type: ContentType) -> InnerAtlas {
        match content_type {
            ContentType::Color => self.color_atlas,
            ContentType::Mask => self.mask_atlas,
        }
    }

    /// The packer of the plane of a content type, as it is, finds room for a
    /// bitmap of `width` by `height` texels.
    pub open spec fn has_room(&self, content_type: ContentType, width: u16, height: u16) -> bool {
        self.inner(content_type).has_room(width, height)
    }

    /// A consistent atlas is a consistent value.
    pub proof fn lemma_wf_view(&self)
        requires
            self.wf(),
        ensures
            self@.wf(),
    {
    }

    /// The atlas in which nothing resides yet, whatever its color mode.
    pub open spec fn empty(color_mode: ColorMode) -> TextAtlasView {
        TextAtlasView {
            color: PlaneView {
                kind: Kind::spec_for_content(ContentType::Color, color_mode),
                size: INITIAL_SIZE,
                entries: Seq::empty(),
                in_use: Set::empty(),
                regions: Map::empty(),
            },
            mask: PlaneView {
                kind: Kind::spec_for_content(ContentType::Mask, color_mode),
                size: INITIAL_SIZE,
                entries: Seq::empty(),
                in_use: Set::empty(),
                regions: Map::empty(),
            },
            color_mode,
        }
    }

    /// Creates a new, empty `TextAtlas` with accurate color management.
    pub fn new() -> (atlas: TextAtlas)
        ensures
            atlas.wf(),
            atlas@ == TextAtlas::empty(ColorMode::Accurate),
    {
        TextAtlas::with_color_mode(ColorMode::Accurate)
    }

    /// Creates a new, empty `TextAtlas` with the given [`ColorMode`].
    pub fn with_color_mode(color_mode: ColorMode) -> (atlas: TextAtlas)
        ensures
            atlas.wf(),
            atlas@ == TextAtlas::empty(color_mode),
    {
        let color_atlas = InnerAtlas::new(Kind::for_content(ContentType::Color, color_mode));
        let mask_atlas = InnerAtlas::new(Kind::for_content(ContentType::Mask, color_mode));
        TextAtlas { color_atlas, mask_atlas, color_mode }
    }

    /// The color mode the atlas was made with.
    pub fn color_mode(&self) -> (color_mode: ColorMode)
        ensures
            color_mode == self@.color_mode,
    {
        self.color_mode
    }

    /// Ends the frame: in neither plane is a glyph in use any more. To be
    /// called once per frame, after everything that draws from the atlas
    /// has been recorded.
    pub fn trim(&mut self)
        ensures
            final(self)@ == old(self)@.trimmed(),
            forall|content_type: ContentType| #[trigger]
                final(self).inner(content_type).packing() == old(self).inner(
                    content_type,
                ).packing(),
            old(self).wf() ==> final(self).wf(),
    {
        self.mask_atlas.trim();
        self.color_atlas.trim();
    }

    /// Grows the plane of a content type: see [`InnerAtlas::grow`].
    pub fn grow(&mut self, content_type: ContentType) -> (did_grow: bool)
        requires
            old(self).wf(),
        ensures
            final(self).wf(),
            did_grow == (old(self)@.plane(content_type).size
                < crate::inner_atlas::MAX_TEXTURE_DIMENSION_2D),
            did_grow ==> final(self)@ == old(self)@.with_plane(
                content_type,
                old(self)@.plane(content_type).grown(),
            ),
            !did_grow ==> final(self)@ == old(self)@,
            old(self).inner(content_type).grows_plane_to(final(self).inner(content_type), did_grow),
            forall|other: ContentType|
                other != content_type ==> #[trigger] final(self).inner(other) == old(self).inner(
                    other,
                ),
    {
        let did_grow = match content_type {
            ContentType::Mask => self.mask_atlas.grow(),
            ContentType::Color => self.color_atlas.grow(),
        };
        did_grow
    }

    /// The plane that holds the glyphs of a content type.
    pub fn inner_for_content(&self, content_type: ContentType) -> (inner: &InnerAtlas)
        ensures
            *inner == self.inner(content_type),
            inner@ == self@.plane(content_type),
            self.wf() ==> inner.wf(),
    {
        match content_type {
            ContentType::Color => &self.color_atlas,
            ContentType::Mask => &self.mask_atlas,
        }
    }

    /// The plane that holds the glyphs of a content type, to work on. What
    /// is done to the plane is done to the atlas; the other plane stays as
    /// it is.
    pub fn inner_for_content_mut(&mut self, content_type: ContentType) -> (inner: &mut InnerAtlas)
        ensures
            *inner == old(self).inner(content_type),
            *final(inner) == final(self).inner(content_type),
            forall|other: ContentType|
                other != content_type ==> #[trigger] final(self).inner(other) == old(self).inner(
                    other,
                ),
            inner@ == old(self)@.plane(content_type),
            old(self).wf() ==> inner.wf(),
            final(self)@ == old(self)@.with_plane(content_type, final(inner)@),
            old(self).wf() && final(inner).wf() && final(inner)@.kind == inner@.kind ==> final(self).wf(),
    {
        match content_type {
            ContentType::Color => &mut self.color_atlas,
            ContentType::Mask => &mut self.mask_atlas,
        }
    }

    /// The glyphs that the texture of a plane must hold: see
    /// [`InnerAtlas::resident_glyphs`].
    pub fn resident_glyphs(&self, content_type: ContentType) -> (glyphs: Vec<CachedGlyph>)
        ensures
            glyphs@ == self@.plane(content_type).residents(),
    {
        self.inner_for_content(content_type).resident_glyphs()
    }

    /// Makes a glyph resident in the plane of its content type and marks it
    /// as in use there, growing the plane if it has to: see
    /// [`InnerAtlas::ensure_resident_or_grow`]. A plane whose packer has
    /// room for the glyph takes it as it is, without eviction or growth; the
    /// request fails only when the plane is as large as a texture can be and
    /// its packer has no room. The other plane is not touched.
    pub fn ensure_resident(
        &mut self,
        identity: GlyphIdentity,
        content_type: ContentType,
        width: u16,
        height: u16,
    ) -> (result: Result<Resident, AtlasError>)
        requires
            old(self).wf(),
        ensures
            final(self).wf(),
            final(self)@ == old(self)@.with_plane(content_type, final(self)@.plane(content_type)),
            old(self)@.plane(content_type).settles(
                final(self)@.plane(content_type),
                identity,
                width,
                height,
                result,
            ),
            !old(self)@.plane(content_type).needs_no_room(identity, width, height) && old(self).has_room(content_type, width, height) ==> {
                &&& result is Ok
                &&& final(self)@.plane(content_type).size == old(self)@.plane(content_type).size
                &&& final(self)@.plane(content_type).entries.drop_last() == old(self)@.plane(
                    content_type,
                ).entries
            },
            result is Err ==> !final(self).has_room(content_type, width, height),
            old(self).inner(content_type).settles_to(
                final(self).inner(content_type),
                identity,
                width,
                height,
                result,
            ),
            forall|other: ContentType|
                other != content_type ==> #[trigger] final(self).inner(other) == old(self).inner(
                    other,
                ),
    {
        let inner = self.inner_for_content_mut(content_type);
        inner.ensure_resident_or_grow(identity, width, height)
    }
}

} // verus!
