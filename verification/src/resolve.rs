//! What a glyph is drawn from.
//!
//! A glyph can be described by a `COLR` paint, an SVG document, a bitmap strike
//! and an outline, in that order of preference. Only the last can be hinted.

use fontdb::{Database, ID};
use vstd::prelude::*;

use crate::bitmap::{image_view, key_of, BitmapGlyphKey, BitmapImage, BitmapImageView};
use crate::hinting::{FontHintingOptions, GlyphHinting};
use crate::path::{outline_view, place, placed, Outline};
use crate::tree::{
    Color, Fill, FontOpticalSizing, FontVariation, GlyphId, Paint, PositionedGlyph, Span,
    TextRendering, OPSZ,
};

verus! {

/// Whether any of the variations sets the optical size axis.
pub open spec fn any_sets_opsz(variations: Seq<FontVariation>) -> bool {
    exists|i: int| 0 <= i < variations.len() && (#[trigger] variations[i]).sets_opsz()
}

/// Whether a span leaves the optical size to the font size.
pub open spec fn wants_opsz(span: Span) -> bool {
    span.font_optical_sizing == FontOpticalSizing::Auto && !any_sets_opsz(span.variations@)
}

/// The variations of a span for a glyph of this size, in a face that has an
/// optical size axis or not.
pub open spec fn variations_of(span: Span, font_size: u32, has_opsz_axis: bool) -> Seq<
    FontVariation,
> {
    if wants_opsz(span) && has_opsz_axis {
        span.variations@.push(FontVariation { tag: OPSZ, value: font_size })
    } else {
        span.variations@
    }
}

/// Whether a span leaves the optical size to the font size, so that it matters
/// if the face has an axis for it.
pub fn follows_font_size(span: &Span) -> (res: bool)
    ensures
        res == wants_opsz(*span),
{
    match span.font_optical_sizing {
        FontOpticalSizing::Off => false,
        FontOpticalSizing::Auto => {
            let mut i: usize = 0;
            while i < span.variations.len()
                invariant
                    i <= span.variations@.len(),
                    forall|j: int| 0 <= j < i ==> !(#[trigger] span.variations@[j]).sets_opsz(),
                decreases span.variations@.len() - i,
            {
                if span.variations[i].is_opsz() {
                    assert(span.variations@[i as int].sets_opsz());
                    return false;
                }
                i = i + 1;
            }
            true
        },
    }
}

/// Returns the effective variation settings for a glyph: the span's explicit
/// variations plus an automatically computed `opsz` value when
/// `font-optical-sizing: auto` is in effect and the font has an `opsz` axis
/// that wasn't set explicitly. This matches browser behavior
/// (CSS font-optical-sizing: auto).
pub fn effective_variations(span: &Span, glyph: &PositionedGlyph, has_opsz_axis: bool) -> (res: Vec<
    FontVariation,
>)
    ensures
        res@ == variations_of(*span, glyph.font_size, has_opsz_axis),
{
    let mut variations: Vec<FontVariation> = Vec::new();
    let mut i: usize = 0;
    while i < span.variations.len()
        invariant
            i <= span.variations@.len(),
            variations@ == span.variations@.take(i as int),
        decreases span.variations@.len() - i,
    {
        variations.push(span.variations[i]);
        i = i + 1;
        assert(variations@ =~= span.variations@.take(i as int));
    }
    assert(variations@ =~= span.variations@);
    if has_opsz_axis && follows_font_size(span) {
        variations.push(FontVariation::new(OPSZ, glyph.font_size));
    }
    variations
}

/// The color and the opacity that masks of a span are painted with.
pub open spec fn mask_paint_of(fill: Option<Fill>) -> (Color, u8) {
    match fill {
        Some(fill) => match fill.paint {
            Paint::Color(color) => (color, fill.opacity_byte),
            _ => (Color { red: 0, green: 0, blue: 0 }, fill.opacity_byte),
        },
        None => (Color { red: 0, green: 0, blue: 0 }, 255),
    }
}

/// The color and the opacity that masks of a span are painted with.
///
/// Bitmap masks store coverage only, so they are painted like an outline
/// glyph would be. Non-solid paints cannot be expressed by an image and
/// fall back to black, which is also what an absent fill resolves to.
pub fn mask_paint(fill: Option<Fill>) -> (res: (Color, u8))
    ensures
        res == mask_paint_of(fill),
{
    match fill {
        Some(fill) => {
            let color: Color = match fill.paint {
                Paint::Color(color) => color,
                _ => Color::black(),
            };
            (color, fill.opacity_byte)
        },
        None => (Color::black(), 255),
    }
}

/// The key of the bitmap of a glyph in a span.
pub open spec fn bitmap_key(span: Span, glyph: PositionedGlyph) -> BitmapGlyphKey {
    key_of(
        glyph.font,
        glyph.id,
        glyph.font_size,
        mask_paint_of(span.fill).0,
        mask_paint_of(span.fill).1,
    )
}

/// What a glyph is drawn from. `G` is what the caller makes of a `COLR` paint
/// and of an SVG document.
pub enum GlyphContent<G> {
    Colr(G),
    Svg(G),
    Bitmap(BitmapImage),
    /// An outline at its place, if the glyph has one.
    Outline(Option<tiny_skia_path::Path>),
}

/// What a [`GlyphContent`] holds.
pub enum GlyphContentView<G> {
    Colr(G),
    Svg(G),
    Bitmap(BitmapImageView),
    Outline(Option<Outline>),
}

impl<G> View for GlyphContent<G> {
    type V = GlyphContentView<G>;

    open spec fn view(&self) -> GlyphContentView<G> {
        match self {
            GlyphContent::Colr(group) => GlyphContentView::Colr(*group),
            GlyphContent::Svg(node) => GlyphContentView::Svg(*node),
            GlyphContent::Bitmap(image) => GlyphContentView::Bitmap(image@),
            GlyphContent::Outline(path) => GlyphContentView::Outline(outline_view(*path)),
        }
    }
}

/// Where glyphs come from: what the caller looks up, usually in a cache over a
/// font database.
///
/// - `has_opsz_axis`: whether a face has an optical size axis;
/// - `colr`: the `COLR` paint of a glyph under variations;
/// - `svg`: the SVG document of a glyph;
/// - `raster`: the bitmap of a glyph;
/// - `select_hinting`: the hinting of a face at a size in pixels per em, given
///   the configuration that holds for the whole document;
/// - `outline`: the outline of a glyph in font units, under variations and
///   fitted to a pixel grid or not.
pub struct GlyphSources<X, C, S, R, H, O> {
    pub has_opsz_axis: X,
    pub colr: C,
    pub svg: S,
    pub raster: R,
    pub select_hinting: H,
    pub outline: O,
}

/// Whether the sources can be asked about anything.
pub open spec fn are_total<G, X, C, S, R, H, O>(sources: GlyphSources<X, C, S, R, H, O>) -> bool where
    X: Fn(ID) -> bool,
    C: Fn(ID, GlyphId, &Vec<FontVariation>) -> Option<G>,
    S: Fn(ID, GlyphId) -> Option<G>,
    R: Fn(BitmapGlyphKey) -> Option<BitmapImage>,
    H: Fn(ID, u32, Option<FontHintingOptions>, &Database) -> Option<FontHintingOptions>,
    O: Fn(ID, GlyphId, &Vec<FontVariation>, Option<GlyphHinting>) -> Option<tiny_skia_path::Path>,
 {
    &&& forall|font: ID| #[trigger] call_requires(sources.has_opsz_axis, (font,))
    &&& forall|font: ID, glyph: GlyphId, variations: &Vec<FontVariation>| #[trigger]
        call_requires(sources.colr, (font, glyph, variations))
    &&& forall|font: ID, glyph: GlyphId| #[trigger] call_requires(sources.svg, (font, glyph))
    &&& forall|key: BitmapGlyphKey| #[trigger] call_requires(sources.raster, (key,))
    &&& forall|font: ID, ppem: u32, global: Option<FontHintingOptions>, fontdb: &Database|
     #[trigger]
        call_requires(sources.select_hinting, (font, ppem, global, fontdb))
    &&& forall|
        font: ID,
        glyph: GlyphId,
        variations: &Vec<FontVariation>,
        hinting: Option<GlyphHinting>,
    | #[trigger]
        call_requires(sources.outline, (font, glyph, variations, hinting))
}

/// Whether these are variations that a glyph of a span can be drawn with. The
/// face is asked about its axes only if that matters.
pub open spec fn are_variations<X>(
    has_opsz_axis: X,
    span: Span,
    glyph: PositionedGlyph,
    variations: Seq<FontVariation>,
) -> bool where X: Fn(ID) -> bool {
    if wants_opsz(span) {
        exists|found: bool| #[trigger]
            call_ensures(has_opsz_axis, (glyph.font,), found) && variations == variations_of(
                span,
                glyph.font_size,
                found,
            )
    } else {
        variations == span.variations@
    }
}

/// The hinting of a glyph of this size.
pub open spec fn hinting_at(options: Option<FontHintingOptions>, ppem: u32) -> Option<GlyphHinting> {
    match options {
        Some(options) => Some(GlyphHinting { options, ppem }),
        None => None,
    }
}

/// Whether this is hinting that a glyph can be drawn with.
///
/// `geometricPrecision` asks for the exact outlines, which is the opposite of
/// what hinting does. The caller is not consulted for it either: a property of
/// the document outranks a setting of the host.
pub open spec fn is_hinting<H>(
    select_hinting: H,
    rendering_mode: TextRendering,
    glyph: PositionedGlyph,
    global: Option<FontHintingOptions>,
    fontdb: &Database,
    hinting: Option<GlyphHinting>,
) -> bool where
    H: Fn(ID, u32, Option<FontHintingOptions>, &Database) -> Option<FontHintingOptions>,
 {
    if rendering_mode == TextRendering::GeometricPrecision {
        hinting is None
    } else {
        exists|options: Option<FontHintingOptions>| #[trigger]
            call_ensures(select_hinting, (glyph.font, glyph.font_size, global, fontdb), options)
                && hinting == hinting_at(options, glyph.font_size)
    }
}

/// Whether a glyph drawn with `variations` can have this content: the first of
/// `COLR`, SVG and bitmap that is found, and the outline when none is.
pub open spec fn is_content<G, X, C, S, R, H, O>(
    sources: GlyphSources<X, C, S, R, H, O>,
    rendering_mode: TextRendering,
    span: Span,
    glyph: PositionedGlyph,
    global: Option<FontHintingOptions>,
    fontdb: &Database,
    variations: Vec<FontVariation>,
    content: GlyphContentView<G>,
) -> bool where
    X: Fn(ID) -> bool,
    C: Fn(ID, GlyphId, &Vec<FontVariation>) -> Option<G>,
    S: Fn(ID, GlyphId) -> Option<G>,
    R: Fn(BitmapGlyphKey) -> Option<BitmapImage>,
    H: Fn(ID, u32, Option<FontHintingOptions>, &Database) -> Option<FontHintingOptions>,
    O: Fn(ID, GlyphId, &Vec<FontVariation>, Option<GlyphHinting>) -> Option<tiny_skia_path::Path>,
 {
    let no_colr = call_ensures(
        sources.colr,
        (glyph.font, glyph.id, &variations),
        None::<G>,
    );
    let no_svg = call_ensures(sources.svg, (glyph.font, glyph.id), None::<G>);
    let no_raster = call_ensures(
        sources.raster,
        (bitmap_key(span, glyph),),
        None::<BitmapImage>,
    );
    match content {
        GlyphContentView::Colr(group) => call_ensures(
            sources.colr,
            (glyph.font, glyph.id, &variations),
            Some(group),
        ),
        GlyphContentView::Svg(node) => no_colr && call_ensures(
            sources.svg,
            (glyph.font, glyph.id),
            Some(node),
        ),
        GlyphContentView::Bitmap(image) => no_colr && no_svg && exists|found: BitmapImage|
         #[trigger]
            call_ensures(sources.raster, (bitmap_key(span, glyph),), Some(found)) && image
                == found@,
        GlyphContentView::Outline(outline) => no_colr && no_svg && no_raster && exists|
            hinting: Option<GlyphHinting>,
            found: Option<tiny_skia_path::Path>,
        | #[trigger]
            call_ensures(sources.outline, (glyph.font, glyph.id, &variations, hinting), found)
                && is_hinting(
                sources.select_hinting,
                rendering_mode,
                glyph,
                global,
                fontdb,
                hinting,
            ) && outline == placed(outline_view(found), glyph.outline_transform),
    }
}

/// Whether a glyph can have this content.
pub open spec fn resolves_to<G, X, C, S, R, H, O>(
    sources: GlyphSources<X, C, S, R, H, O>,
    rendering_mode: TextRendering,
    span: Span,
    glyph: PositionedGlyph,
    global: Option<FontHintingOptions>,
    fontdb: &Database,
    content: GlyphContentView<G>,
) -> bool where
    X: Fn(ID) -> bool,
    C: Fn(ID, GlyphId, &Vec<FontVariation>) -> Option<G>,
    S: Fn(ID, GlyphId) -> Option<G>,
    R: Fn(BitmapGlyphKey) -> Option<BitmapImage>,
    H: Fn(ID, u32, Option<FontHintingOptions>, &Database) -> Option<FontHintingOptions>,
    O: Fn(ID, GlyphId, &Vec<FontVariation>, Option<GlyphHinting>) -> Option<tiny_skia_path::Path>,
 {
    exists|variations: Vec<FontVariation>|
        are_variations(sources.has_opsz_axis, span, glyph, variations@) && #[trigger] is_content(
            sources,
            rendering_mode,
            span,
            glyph,
            global,
            fontdb,
            variations,
            content,
        )
}

/// Looks up what a glyph is drawn from.
pub fn resolve_glyph<G, X, C, S, R, H, O>(
    sources: &GlyphSources<X, C, S, R, H, O>,
    rendering_mode: TextRendering,
    span: &Span,
    glyph: &PositionedGlyph,
    hinting: Option<FontHintingOptions>,
    fontdb: &Database,
) -> (res: GlyphContent<G>) where
    X: Fn(ID) -> bool,
    C: Fn(ID, GlyphId, &Vec<FontVariation>) -> Option<G>,
    S: Fn(ID, GlyphId) -> Option<G>,
    R: Fn(BitmapGlyphKey) -> Option<BitmapImage>,
    H: Fn(ID, u32, Option<FontHintingOptions>, &Database) -> Option<FontHintingOptions>,
    O: Fn(ID, GlyphId, &Vec<FontVariation>, Option<GlyphHinting>) -> Option<tiny_skia_path::Path>,

    requires
        are_total(*sources),
    ensures
        resolves_to(*sources, rendering_mode, *span, *glyph, hinting, fontdb, res@),
{
    let has_opsz_axis: bool = if follows_font_size(span) {
        (sources.has_opsz_axis)(glyph.font)
    } else {
        false
    };
    let variations: Vec<FontVariation> = effective_variations(span, glyph, has_opsz_axis);
    let (mask_color, mask_opacity): (Color, u8) = mask_paint(span.fill);
    let key: BitmapGlyphKey = BitmapGlyphKey::new(
        glyph.font,
        glyph.id,
        glyph.font_size,
        mask_color,
        mask_opacity,
    );
    let content: GlyphContent<G> = if let Some(group) = (sources.colr)(
        glyph.font,
        glyph.id,
        &variations,
    ) {
        // A (best-effort conversion of a) COLR glyph.
        GlyphContent::Colr(group)
    } else if let Some(node) = (sources.svg)(glyph.font, glyph.id) {
        // An SVG glyph.
        GlyphContent::Svg(node)
    } else if let Some(image) = (sources.raster)(key) {
        // A bitmap glyph.
        assert(call_ensures(sources.raster, (bitmap_key(*span, *glyph),), Some(image)));
        GlyphContent::Bitmap(image)
    } else {
        // Resolved per glyph, since the resolver keys on the font that
        // actually supplied it, which fallback may have changed.
        let glyph_hinting: Option<GlyphHinting> = match rendering_mode {
            TextRendering::GeometricPrecision => None,
            _ => {
                let options: Option<FontHintingOptions> = (sources.select_hinting)(
                    glyph.font,
                    glyph.font_size,
                    hinting,
                    fontdb,
                );
                match options {
                    Some(options) => Some(GlyphHinting { options, ppem: glyph.font_size }),
                    None => None,
                }
            },
        };
        let outline: Option<tiny_skia_path::Path> = (sources.outline)(
            glyph.font,
            glyph.id,
            &variations,
            glyph_hinting,
        );
        GlyphContent::Outline(place(outline, glyph.outline_transform))
    };
    assert(is_content(
        *sources,
        rendering_mode,
        *span,
        *glyph,
        hinting,
        fontdb,
        variations,
        content@,
    ));
    content
}

/// The variations that a style asks for are kept, in their order. An optical
/// size that is set explicitly is never overridden.
pub proof fn law_explicit_variations_are_kept(span: Span, font_size: u32, has_opsz_axis: bool)
    ensures
        span.variations@.is_prefix_of(variations_of(span, font_size, has_opsz_axis)),
        any_sets_opsz(span.variations@) ==> variations_of(span, font_size, has_opsz_axis)
            == span.variations@,
        span.font_optical_sizing == FontOpticalSizing::Off ==> variations_of(
            span,
            font_size,
            has_opsz_axis,
        ) == span.variations@,
        !has_opsz_axis ==> variations_of(span, font_size, has_opsz_axis) == span.variations@,
{
}

/// Where the optical size follows the font size, it is set to that, and only
/// once.
pub proof fn law_optical_size_follows_the_font_size(span: Span, font_size: u32)
    requires
        wants_opsz(span),
    ensures
        ({
            let variations = variations_of(span, font_size, true);
            &&& variations.len() == span.variations@.len() + 1
            &&& variations.last().sets_opsz()
            &&& variations.last().value == font_size
            &&& forall|i: int|
                0 <= i < variations.len() - 1 ==> !(#[trigger] variations[i]).sets_opsz()
        }),
{
    let variations: Seq<FontVariation> = variations_of(span, font_size, true);
    assert forall|i: int| 0 <= i < variations.len() - 1 implies !(
    #[trigger] variations[i]).sets_opsz() by {
        assert(variations[i] == span.variations@[i]);
    }
}

/// Hinting has nothing to say about a glyph that arrives as an image, nor about
/// one that is a paint or a document: neither the configuration, nor who selects
/// it, nor the rendering mode changes what such a glyph is drawn from.
pub proof fn law_hinting_only_reaches_outlines<G, X, C, S, R, H, J, O>(
    sources: GlyphSources<X, C, S, R, H, O>,
    select_hinting: J,
    mode_a: TextRendering,
    mode_b: TextRendering,
    span: Span,
    glyph: PositionedGlyph,
    global_a: Option<FontHintingOptions>,
    global_b: Option<FontHintingOptions>,
    fontdb_a: &Database,
    fontdb_b: &Database,
    content: GlyphContentView<G>,
) where
    X: Fn(ID) -> bool,
    C: Fn(ID, GlyphId, &Vec<FontVariation>) -> Option<G>,
    S: Fn(ID, GlyphId) -> Option<G>,
    R: Fn(BitmapGlyphKey) -> Option<BitmapImage>,
    H: Fn(ID, u32, Option<FontHintingOptions>, &Database) -> Option<FontHintingOptions>,
    J: Fn(ID, u32, Option<FontHintingOptions>, &Database) -> Option<FontHintingOptions>,
    O: Fn(ID, GlyphId, &Vec<FontVariation>, Option<GlyphHinting>) -> Option<tiny_skia_path::Path>,

    requires
        content !is Outline,
        resolves_to(sources, mode_a, span, glyph, global_a, fontdb_a, content),
    ensures
        resolves_to(
            with_hinting(sources, select_hinting),
            mode_b,
            span,
            glyph,
            global_b,
            fontdb_b,
            content,
        ),
{
    let variations: Vec<FontVariation> = choose|variations: Vec<FontVariation>|
        are_variations(sources.has_opsz_axis, span, glyph, variations@) && #[trigger] is_content(
            sources,
            mode_a,
            span,
            glyph,
            global_a,
            fontdb_a,
            variations,
            content,
        );
    let other: GlyphSources<X, C, S, R, J, O> = with_hinting(sources, select_hinting);
    if let GlyphContentView::Bitmap(image) = content {
        let found: BitmapImage = choose|found: BitmapImage| #[trigger]
            call_ensures(sources.raster, (bitmap_key(span, glyph),), Some(found)) && image
                == found@;
        assert(call_ensures(other.raster, (bitmap_key(span, glyph),), Some(found)));
    }
    assert(is_content(
        other,
        mode_b,
        span,
        glyph,
        global_b,
        fontdb_b,
        variations,
        content,
    ));
}

/// The same sources with another way to select hinting.
pub open spec fn with_hinting<X, C, S, R, H, J, O>(
    sources: GlyphSources<X, C, S, R, H, O>,
    select_hinting: J,
) -> GlyphSources<X, C, S, R, J, O> {
    GlyphSources {
        has_opsz_axis: sources.has_opsz_axis,
        colr: sources.colr,
        svg: sources.svg,
        raster: sources.raster,
        select_hinting,
        outline: sources.outline,
    }
}

/// Whether every answer that one selector gives for a glyph is one that another
/// can give, too.
pub open spec fn answers_alike<H, J>(
    one: H,
    other: J,
    glyph: PositionedGlyph,
    global_a: Option<FontHintingOptions>,
    global_b: Option<FontHintingOptions>,
    fontdb: &Database,
) -> bool where
    H: Fn(ID, u32, Option<FontHintingOptions>, &Database) -> Option<FontHintingOptions>,
    J: Fn(ID, u32, Option<FontHintingOptions>, &Database) -> Option<FontHintingOptions>,
 {
    forall|options: Option<FontHintingOptions>| #[trigger]
        call_ensures(one, (glyph.font, glyph.font_size, global_a, fontdb), options)
            ==> call_ensures(other, (glyph.font, glyph.font_size, global_b, fontdb), options)
}

/// Only the answer of the selector counts: if one can give every answer that
/// another gives for a glyph, every content of the glyph under the other is one
/// under it, too. The selector is asked about the face and the size of the
/// glyph, and told the configuration of the document.
pub proof fn law_only_the_selected_hinting_counts<G, X, C, S, R, H, J, O>(
    sources: GlyphSources<X, C, S, R, H, O>,
    select_hinting: J,
    rendering_mode: TextRendering,
    span: Span,
    glyph: PositionedGlyph,
    global_a: Option<FontHintingOptions>,
    global_b: Option<FontHintingOptions>,
    fontdb: &Database,
    content: GlyphContentView<G>,
) where
    X: Fn(ID) -> bool,
    C: Fn(ID, GlyphId, &Vec<FontVariation>) -> Option<G>,
    S: Fn(ID, GlyphId) -> Option<G>,
    R: Fn(BitmapGlyphKey) -> Option<BitmapImage>,
    H: Fn(ID, u32, Option<FontHintingOptions>, &Database) -> Option<FontHintingOptions>,
    J: Fn(ID, u32, Option<FontHintingOptions>, &Database) -> Option<FontHintingOptions>,
    O: Fn(ID, GlyphId, &Vec<FontVariation>, Option<GlyphHinting>) -> Option<tiny_skia_path::Path>,

    requires
        resolves_to(sources, rendering_mode, span, glyph, global_a, fontdb, content),
        answers_alike(
            sources.select_hinting,
            select_hinting,
            glyph,
            global_a,
            global_b,
            fontdb,
        ),
    ensures
        resolves_to(
            with_hinting(sources, select_hinting),
            rendering_mode,
            span,
            glyph,
            global_b,
            fontdb,
            content,
        ),
{
    let variations: Vec<FontVariation> = choose|variations: Vec<FontVariation>|
        are_variations(sources.has_opsz_axis, span, glyph, variations@) && #[trigger] is_content(
            sources,
            rendering_mode,
            span,
            glyph,
            global_a,
            fontdb,
            variations,
            content,
        );
    let other: GlyphSources<X, C, S, R, J, O> = with_hinting(sources, select_hinting);
    if let GlyphContentView::Outline(outline) = content {
        let (hinting, found) = choose|
            hinting: Option<GlyphHinting>,
            found: Option<tiny_skia_path::Path>,
        | #[trigger]
            call_ensures(sources.outline, (glyph.font, glyph.id, &variations, hinting), found)
                && is_hinting(
                sources.select_hinting,
                rendering_mode,
                glyph,
                global_a,
                fontdb,
                hinting,
            ) && outline == placed(outline_view(found), glyph.outline_transform);
        assert(call_ensures(
            other.outline,
            (glyph.font, glyph.id, &variations, hinting),
            found,
        ));
        if rendering_mode != TextRendering::GeometricPrecision {
            let options = choose|options: Option<FontHintingOptions>| #[trigger]
                call_ensures(
                    sources.select_hinting,
                    (glyph.font, glyph.font_size, global_a, fontdb),
                    options,
                ) && hinting == hinting_at(options, glyph.font_size);
            assert(call_ensures(
                select_hinting,
                (glyph.font, glyph.font_size, global_b, fontdb),
                options,
            ));
        }
        assert(is_hinting(select_hinting, rendering_mode, glyph, global_b, fontdb, hinting));
    }
    if let GlyphContentView::Bitmap(image) = content {
        let found: BitmapImage = choose|found: BitmapImage| #[trigger]
            call_ensures(sources.raster, (bitmap_key(span, glyph),), Some(found)) && image
                == found@;
        assert(call_ensures(other.raster, (bitmap_key(span, glyph),), Some(found)));
    }
    assert(is_content(
        other,
        rendering_mode,
        span,
        glyph,
        global_b,
        fontdb,
        variations,
        content,
    ));
}

/// A glyph of a `geometricPrecision` text is never hinted: neither the
/// configuration nor who selects it changes what the glyph is drawn from.
pub proof fn law_geometric_precision_is_never_hinted<G, X, C, S, R, H, J, O>(
    sources: GlyphSources<X, C, S, R, H, O>,
    select_hinting: J,
    span: Span,
    glyph: PositionedGlyph,
    global_a: Option<FontHintingOptions>,
    global_b: Option<FontHintingOptions>,
    fontdb_a: &Database,
    fontdb_b: &Database,
    content: GlyphContentView<G>,
) where
    X: Fn(ID) -> bool,
    C: Fn(ID, GlyphId, &Vec<FontVariation>) -> Option<G>,
    S: Fn(ID, GlyphId) -> Option<G>,
    R: Fn(BitmapGlyphKey) -> Option<BitmapImage>,
    H: Fn(ID, u32, Option<FontHintingOptions>, &Database) -> Option<FontHintingOptions>,
    J: Fn(ID, u32, Option<FontHintingOptions>, &Database) -> Option<FontHintingOptions>,
    O: Fn(ID, GlyphId, &Vec<FontVariation>, Option<GlyphHinting>) -> Option<tiny_skia_path::Path>,

    requires
        resolves_to(
            sources,
            TextRendering::GeometricPrecision,
            span,
            glyph,
            global_a,
            fontdb_a,
            content,
        ),
    ensures
        resolves_to(
            with_hinting(sources, select_hinting),
            TextRendering::GeometricPrecision,
            span,
            glyph,
            global_b,
            fontdb_b,
            content,
        ),
        forall|hinting: Option<GlyphHinting>| #[trigger]
            is_hinting(
                sources.select_hinting,
                TextRendering::GeometricPrecision,
                glyph,
                global_a,
                fontdb_a,
                hinting,
            ) <==> hinting is None,
{
    if content is Outline {
        let variations: Vec<FontVariation> = choose|variations: Vec<FontVariation>|
            are_variations(sources.has_opsz_axis, span, glyph, variations@) && #[trigger] is_content(
                sources,
                TextRendering::GeometricPrecision,
                span,
                glyph,
                global_a,
                fontdb_a,
                variations,
                content,
            );
        let none: Option<GlyphHinting> = None;
        assert(is_hinting(
            select_hinting,
            TextRendering::GeometricPrecision,
            glyph,
            global_b,
            fontdb_b,
            none,
        ));
        let outline: Option<Outline> = content->Outline_0;
        let found: Option<tiny_skia_path::Path> = choose|found: Option<tiny_skia_path::Path>|
         #[trigger]
            call_ensures(sources.outline, (glyph.font, glyph.id, &variations, none), found)
                && outline == placed(outline_view(found), glyph.outline_transform);
        let other: GlyphSources<X, C, S, R, J, O> = with_hinting(sources, select_hinting);
        assert(call_ensures(other.outline, (glyph.font, glyph.id, &variations, none), found));
        assert(is_content(
            other,
            TextRendering::GeometricPrecision,
            span,
            glyph,
            global_b,
            fontdb_b,
            variations,
            content,
        ));
    } else {
        law_hinting_only_reaches_outlines(
            sources,
            select_hinting,
            TextRendering::GeometricPrecision,
            TextRendering::GeometricPrecision,
            span,
            glyph,
            global_a,
            global_b,
            fontdb_a,
            fontdb_b,
            content,
        );
    }
}

/// A glyph whose hinting the selector declines is drawn from what it is drawn
/// from in a text that is never hinted.
pub proof fn law_declined_hinting_is_no_hinting<G, X, C, S, R, H, O>(
    sources: GlyphSources<X, C, S, R, H, O>,
    rendering_mode: TextRendering,
    span: Span,
    glyph: PositionedGlyph,
    global: Option<FontHintingOptions>,
    fontdb: &Database,
    content: GlyphContentView<G>,
) where
    X: Fn(ID) -> bool,
    C: Fn(ID, GlyphId, &Vec<FontVariation>) -> Option<G>,
    S: Fn(ID, GlyphId) -> Option<G>,
    R: Fn(BitmapGlyphKey) -> Option<BitmapImage>,
    H: Fn(ID, u32, Option<FontHintingOptions>, &Database) -> Option<FontHintingOptions>,
    O: Fn(ID, GlyphId, &Vec<FontVariation>, Option<GlyphHinting>) -> Option<tiny_skia_path::Path>,

    requires
        resolves_to(sources, rendering_mode, span, glyph, global, fontdb, content),
        forall|options: Option<FontHintingOptions>| #[trigger]
            call_ensures(
                sources.select_hinting,
                (glyph.font, glyph.font_size, global, fontdb),
                options,
            ) ==> options is None,
    ensures
        resolves_to(
            sources,
            TextRendering::GeometricPrecision,
            span,
            glyph,
            global,
            fontdb,
            content,
        ),
{
    let variations: Vec<FontVariation> = choose|variations: Vec<FontVariation>|
        are_variations(sources.has_opsz_axis, span, glyph, variations@) && #[trigger] is_content(
            sources,
            rendering_mode,
            span,
            glyph,
            global,
            fontdb,
            variations,
            content,
        );
    assert(is_content(
        sources,
        TextRendering::GeometricPrecision,
        span,
        glyph,
        global,
        fontdb,
        variations,
        content,
    ));
}

/// A glyph that is hinted is hinted with what was selected, at its own size.
pub proof fn law_hinting_is_what_was_selected<H>(
    select_hinting: H,
    rendering_mode: TextRendering,
    glyph: PositionedGlyph,
    global: Option<FontHintingOptions>,
    fontdb: &Database,
    hinting: GlyphHinting,
) where H: Fn(ID, u32, Option<FontHintingOptions>, &Database) -> Option<FontHintingOptions>
    requires
        is_hinting(select_hinting, rendering_mode, glyph, global, fontdb, Some(hinting)),
    ensures
        rendering_mode != TextRendering::GeometricPrecision,
        hinting.ppem == glyph.font_size,
        call_ensures(
            select_hinting,
            (glyph.font, glyph.font_size, global, fontdb),
            Some(hinting.options),
        ),
{
    let options = choose|options: Option<FontHintingOptions>| #[trigger]
        call_ensures(select_hinting, (glyph.font, glyph.font_size, global, fontdb), options)
            && Some(hinting) == hinting_at(options, glyph.font_size);
    assert(options == Some(hinting.options));
}

/// Whether two glyphs are the same but for their outlines.
pub open spec fn same_but_outlines<G>(a: GlyphContentView<G>, b: GlyphContentView<G>) -> bool {
    a == b || (a is Outline && b is Outline)
}

/// Whether the sources always give the same answer about anything but outlines
/// and hinting, as those over a font database do that does not change.
pub open spec fn are_consistent<G, X, C, S, R, H, O>(
    sources: GlyphSources<X, C, S, R, H, O>,
) -> bool where
    X: Fn(ID) -> bool,
    C: Fn(ID, GlyphId, &Vec<FontVariation>) -> Option<G>,
    S: Fn(ID, GlyphId) -> Option<G>,
    R: Fn(BitmapGlyphKey) -> Option<BitmapImage>,
    H: Fn(ID, u32, Option<FontHintingOptions>, &Database) -> Option<FontHintingOptions>,
    O: Fn(ID, GlyphId, &Vec<FontVariation>, Option<GlyphHinting>) -> Option<tiny_skia_path::Path>,
 {
    &&& forall|font: ID, a: bool, b: bool| #[trigger]
        call_ensures(sources.has_opsz_axis, (font,), a) && #[trigger] call_ensures(
            sources.has_opsz_axis,
            (font,),
            b,
        ) ==> a == b
    &&& forall|
        font: ID,
        glyph: GlyphId,
        u: Vec<FontVariation>,
        v: Vec<FontVariation>,
        a: Option<G>,
        b: Option<G>,
    | #[trigger]
        call_ensures(sources.colr, (font, glyph, &u), a) && #[trigger] call_ensures(
            sources.colr,
            (font, glyph, &v),
            b,
        ) && u@ == v@ ==> a == b
    &&& forall|font: ID, glyph: GlyphId, a: Option<G>, b: Option<G>| #[trigger]
        call_ensures(sources.svg, (font, glyph), a) && #[trigger] call_ensures(
            sources.svg,
            (font, glyph),
            b,
        ) ==> a == b
    &&& forall|key: BitmapGlyphKey, a: Option<BitmapImage>, b: Option<BitmapImage>| #[trigger]
        call_ensures(sources.raster, (key,), a) && #[trigger] call_ensures(
            sources.raster,
            (key,),
            b,
        ) ==> image_view(a) == image_view(b)
}

/// What a glyph is drawn from does not depend on hinting: over sources that are
/// consistent, it is the same under every configuration and every rendering
/// mode, but for the shape of an outline.
pub proof fn law_hinting_changes_nothing_but_outlines<G, X, C, S, R, H, J, O>(
    sources: GlyphSources<X, C, S, R, H, O>,
    select_hinting: J,
    mode_a: TextRendering,
    mode_b: TextRendering,
    span: Span,
    glyph: PositionedGlyph,
    global_a: Option<FontHintingOptions>,
    global_b: Option<FontHintingOptions>,
    fontdb_a: &Database,
    fontdb_b: &Database,
    a: GlyphContentView<G>,
    b: GlyphContentView<G>,
) where
    X: Fn(ID) -> bool,
    C: Fn(ID, GlyphId, &Vec<FontVariation>) -> Option<G>,
    S: Fn(ID, GlyphId) -> Option<G>,
    R: Fn(BitmapGlyphKey) -> Option<BitmapImage>,
    H: Fn(ID, u32, Option<FontHintingOptions>, &Database) -> Option<FontHintingOptions>,
    J: Fn(ID, u32, Option<FontHintingOptions>, &Database) -> Option<FontHintingOptions>,
    O: Fn(ID, GlyphId, &Vec<FontVariation>, Option<GlyphHinting>) -> Option<tiny_skia_path::Path>,

    requires
        are_consistent(sources),
        resolves_to(sources, mode_a, span, glyph, global_a, fontdb_a, a),
        resolves_to(
            with_hinting(sources, select_hinting),
            mode_b,
            span,
            glyph,
            global_b,
            fontdb_b,
            b,
        ),
    ensures
        same_but_outlines(a, b),
{
    let other: GlyphSources<X, C, S, R, J, O> = with_hinting(sources, select_hinting);
    let u: Vec<FontVariation> = choose|variations: Vec<FontVariation>|
        are_variations(sources.has_opsz_axis, span, glyph, variations@) && #[trigger] is_content(
            sources,
            mode_a,
            span,
            glyph,
            global_a,
            fontdb_a,
            variations,
            a,
        );
    let v: Vec<FontVariation> = choose|variations: Vec<FontVariation>|
        are_variations(sources.has_opsz_axis, span, glyph, variations@) && #[trigger] is_content(
            other,
            mode_b,
            span,
            glyph,
            global_b,
            fontdb_b,
            variations,
            b,
        );
    assert(u@ == v@);
}

/// A hinted outline is drawn where an unhinted one would be: whatever hinting is
/// selected, the outline that is found with it and with the variations of the
/// glyph is taken to the one place of the glyph.
pub proof fn law_hinting_keeps_the_place<G, X, C, S, R, H, O>(
    sources: GlyphSources<X, C, S, R, H, O>,
    rendering_mode: TextRendering,
    span: Span,
    glyph: PositionedGlyph,
    global: Option<FontHintingOptions>,
    fontdb: &Database,
    outline: Option<Outline>,
) where
    X: Fn(ID) -> bool,
    C: Fn(ID, GlyphId, &Vec<FontVariation>) -> Option<G>,
    S: Fn(ID, GlyphId) -> Option<G>,
    R: Fn(BitmapGlyphKey) -> Option<BitmapImage>,
    H: Fn(ID, u32, Option<FontHintingOptions>, &Database) -> Option<FontHintingOptions>,
    O: Fn(ID, GlyphId, &Vec<FontVariation>, Option<GlyphHinting>) -> Option<tiny_skia_path::Path>,

    requires
        resolves_to(
            sources,
            rendering_mode,
            span,
            glyph,
            global,
            fontdb,
            GlyphContentView::<G>::Outline(outline),
        ),
    ensures
        exists|
            variations: Vec<FontVariation>,
            hinting: Option<GlyphHinting>,
            found: Option<tiny_skia_path::Path>,
        | #[trigger]
            call_ensures(sources.outline, (glyph.font, glyph.id, &variations, hinting), found)
                && are_variations(sources.has_opsz_axis, span, glyph, variations@) && is_hinting(
                sources.select_hinting,
                rendering_mode,
                glyph,
                global,
                fontdb,
                hinting,
            ) && outline == placed(outline_view(found), glyph.outline_transform),
{
}

/// The optical size follows the font size exactly if the style does not turn that
/// off and none of its variations has the tag `opsz`.
pub proof fn law_explicit_optical_size_wins(span: Span)
    ensures
        wants_opsz(span) <==> span.font_optical_sizing == FontOpticalSizing::Auto && forall|i: int|
            0 <= i < span.variations@.len() ==> (#[trigger] span.variations@[i]).tag@ != seq![
                0x6fu8,
                0x70,
                0x73,
                0x7a,
            ],
{
    assert(OPSZ@ =~= seq![0x6fu8, 0x70, 0x73, 0x7a]);
    if wants_opsz(span) {
        assert forall|i: int| 0 <= i < span.variations@.len() implies (
        #[trigger] span.variations@[i]).tag@ != seq![0x6fu8, 0x70, 0x73, 0x7a] by {
            assert(!span.variations@[i].sets_opsz());
        }
    }
}

/// A glyph is drawn with the variations of its style, in their order. One more is
/// added exactly if the optical size follows the font size and the face has an
/// axis for it: the size of the glyph, under the tag `opsz`.
pub proof fn law_variations_are_those_of_the_style<X>(
    has_opsz_axis: X,
    span: Span,
    glyph: PositionedGlyph,
    variations: Seq<FontVariation>,
) where X: Fn(ID) -> bool
    requires
        are_variations(has_opsz_axis, span, glyph, variations),
    ensures
        variations == span.variations@ || {
            &&& wants_opsz(span)
            &&& call_ensures(has_opsz_axis, (glyph.font,), true)
            &&& variations.len() == span.variations@.len() + 1
            &&& variations.drop_last() == span.variations@
            &&& variations.last().tag@ == seq![0x6fu8, 0x70, 0x73, 0x7a]
            &&& variations.last().value == glyph.font_size
        },
        wants_opsz(span) && variations == span.variations@ ==> call_ensures(
            has_opsz_axis,
            (glyph.font,),
            false,
        ),
{
    assert(OPSZ@ =~= seq![0x6fu8, 0x70, 0x73, 0x7a]);
    if wants_opsz(span) {
        let found: bool = choose|found: bool| #[trigger]
            call_ensures(has_opsz_axis, (glyph.font,), found) && variations == variations_of(
                span,
                glyph.font_size,
                found,
            );
        if found {
            assert(variations.len() == span.variations@.len() + 1);
            assert(variations.drop_last() =~= span.variations@);
        }
    }
}

/// The same of the variations for a face that has an axis for the optical size,
/// or has none.
pub proof fn law_only_an_optical_size_is_added(span: Span, font_size: u32, has_opsz_axis: bool)
    ensures
        ({
            let variations = variations_of(span, font_size, has_opsz_axis);
            if wants_opsz(span) && has_opsz_axis {
                &&& variations.len() == span.variations@.len() + 1
                &&& variations.drop_last() == span.variations@
                &&& variations.last().tag@ == seq![0x6fu8, 0x70, 0x73, 0x7a]
                &&& variations.last().value == font_size
            } else {
                variations == span.variations@
            }
        }),
{
    assert(OPSZ@ =~= seq![0x6fu8, 0x70, 0x73, 0x7a]);
    let variations: Seq<FontVariation> = variations_of(span, font_size, has_opsz_axis);
    if wants_opsz(span) && has_opsz_axis {
        assert(variations.drop_last() =~= span.variations@);
    }
}

/// A mask is painted in the solid color of the fill, and in black under any other
/// paint. The opacity is that of the fill, whatever its paint. Without a fill a
/// mask is opaque black.
pub proof fn law_masks_are_painted_like_outlines(fill: Option<Fill>)
    ensures
        match fill {
            Some(fill) => mask_paint_of(Some(fill)).1 == fill.opacity_byte,
            None => mask_paint_of(None).1 == 255,
        },
        fill is Some ==> match fill->0.paint {
            Paint::Color(color) => mask_paint_of(fill).0 == color,
            _ => true,
        },
        (fill is None || fill->0.paint !is Color) ==> {
            let color = mask_paint_of(fill).0;
            color.red == 0 && color.green == 0 && color.blue == 0
        },
{
}

/// A bitmap is looked up for the face, the glyph and the size of a glyph, and for
/// the paint of its span.
pub proof fn law_bitmap_is_looked_up_for_its_glyph(span: Span, glyph: PositionedGlyph)
    ensures
        ({
            let key = bitmap_key(span, glyph);
            let paint = mask_paint_of(span.fill);
            &&& key.font == glyph.font
            &&& key.glyph == glyph.id
            &&& key.font_size == glyph.font_size
            &&& key.fill@ == seq![paint.0.red, paint.0.green, paint.0.blue, paint.1]
        }),
{
    let paint: (Color, u8) = mask_paint_of(span.fill);
    assert(bitmap_key(span, glyph).fill@ =~= seq![
        paint.0.red,
        paint.0.green,
        paint.0.blue,
        paint.1,
    ]);
}

/// Hinting that is selected is applied in every rendering mode but
/// `geometricPrecision`: a glyph is hinted exactly with what the selector answers
/// for its face and its size, at that size, and is unhinted exactly if the
/// selector declines.
pub proof fn law_selected_hinting_is_applied<H>(
    select_hinting: H,
    rendering_mode: TextRendering,
    glyph: PositionedGlyph,
    global: Option<FontHintingOptions>,
    fontdb: &Database,
    hinting: Option<GlyphHinting>,
) where H: Fn(ID, u32, Option<FontHintingOptions>, &Database) -> Option<FontHintingOptions>
    ensures
        rendering_mode is OptimizeSpeed || rendering_mode is OptimizeLegibility ==> (is_hinting(
            select_hinting,
            rendering_mode,
            glyph,
            global,
            fontdb,
            hinting,
        ) <==> match hinting {
            Some(hinting) => hinting.ppem == glyph.font_size && call_ensures(
                select_hinting,
                (glyph.font, glyph.font_size, global, fontdb),
                Some(hinting.options),
            ),
            None => call_ensures(
                select_hinting,
                (glyph.font, glyph.font_size, global, fontdb),
                None::<FontHintingOptions>,
            ),
        }),
        rendering_mode is GeometricPrecision ==> (is_hinting(
            select_hinting,
            rendering_mode,
            glyph,
            global,
            fontdb,
            hinting,
        ) <==> hinting is None),
{
    if rendering_mode != TextRendering::GeometricPrecision {
        if is_hinting(select_hinting, rendering_mode, glyph, global, fontdb, hinting) {
            let options = choose|options: Option<FontHintingOptions>| #[trigger]
                call_ensures(select_hinting, (glyph.font, glyph.font_size, global, fontdb), options)
                    && hinting == hinting_at(options, glyph.font_size);
            assert(hinting == hinting_at(options, glyph.font_size));
            assert(options == match hinting {
                Some(hinting) => Some(hinting.options),
                None => None,
            });
        }
        let options: Option<FontHintingOptions> = match hinting {
            Some(hinting) => Some(hinting.options),
            None => None,
        };
        if call_ensures(select_hinting, (glyph.font, glyph.font_size, global, fontdb), options) {
            assert(hinting_at(options, glyph.font_size) == match hinting {
                Some(hinting) => Some(
                    GlyphHinting { options: hinting.options, ppem: glyph.font_size },
                ),
                None => None,
            });
        }
    }
}

/// An outline is only looked up once there is no paint, no document and no
/// bitmap. It is looked up with the variations of the glyph and the hinting that
/// was selected for it, and taken to the place of the glyph.
pub proof fn law_outline_is_looked_up_as_selected<G, X, C, S, R, H, O>(
    sources: GlyphSources<X, C, S, R, H, O>,
    rendering_mode: TextRendering,
    span: Span,
    glyph: PositionedGlyph,
    global: Option<FontHintingOptions>,
    fontdb: &Database,
    outline: Option<Outline>,
) where
    X: Fn(ID) -> bool,
    C: Fn(ID, GlyphId, &Vec<FontVariation>) -> Option<G>,
    S: Fn(ID, GlyphId) -> Option<G>,
    R: Fn(BitmapGlyphKey) -> Option<BitmapImage>,
    H: Fn(ID, u32, Option<FontHintingOptions>, &Database) -> Option<FontHintingOptions>,
    O: Fn(ID, GlyphId, &Vec<FontVariation>, Option<GlyphHinting>) -> Option<tiny_skia_path::Path>,

    requires
        resolves_to(
            sources,
            rendering_mode,
            span,
            glyph,
            global,
            fontdb,
            GlyphContentView::<G>::Outline(outline),
        ),
    ensures
        call_ensures(sources.svg, (glyph.font, glyph.id), None::<G>),
        call_ensures(sources.raster, (bitmap_key(span, glyph),), None::<BitmapImage>),
        exists|
            variations: Vec<FontVariation>,
            hinting: Option<GlyphHinting>,
            found: Option<tiny_skia_path::Path>,
        | #[trigger]
            call_ensures(sources.outline, (glyph.font, glyph.id, &variations, hinting), found) && {
                &&& call_ensures(sources.colr, (glyph.font, glyph.id, &variations), None::<G>)
                &&& are_variations(sources.has_opsz_axis, span, glyph, variations@)
                &&& outline == placed(outline_view(found), glyph.outline_transform)
                &&& match hinting {
                    Some(hinting) => {
                        &&& !(rendering_mode is GeometricPrecision)
                        &&& hinting.ppem == glyph.font_size
                        &&& call_ensures(
                            sources.select_hinting,
                            (glyph.font, glyph.font_size, global, fontdb),
                            Some(hinting.options),
                        )
                    },
                    None => rendering_mode is GeometricPrecision || call_ensures(
                        sources.select_hinting,
                        (glyph.font, glyph.font_size, global, fontdb),
                        None::<FontHintingOptions>,
                    ),
                }
            },
{
    let variations: Vec<FontVariation> = choose|variations: Vec<FontVariation>|
        are_variations(sources.has_opsz_axis, span, glyph, variations@) && #[trigger] is_content(
            sources,
            rendering_mode,
            span,
            glyph,
            global,
            fontdb,
            variations,
            GlyphContentView::<G>::Outline(outline),
        );
    let (hinting, found) = choose|
        hinting: Option<GlyphHinting>,
        found: Option<tiny_skia_path::Path>,
    | #[trigger]
        call_ensures(sources.outline, (glyph.font, glyph.id, &variations, hinting), found)
            && is_hinting(
            sources.select_hinting,
            rendering_mode,
            glyph,
            global,
            fontdb,
            hinting,
        ) && outline == placed(outline_view(found), glyph.outline_transform);
    law_selected_hinting_is_applied(
        sources.select_hinting,
        rendering_mode,
        glyph,
        global,
        fontdb,
        hinting,
    );
    assert(call_ensures(sources.outline, (glyph.font, glyph.id, &variations, hinting), found));
}

/// If the selector always answers with the same configuration for a glyph, the
/// outline of the glyph is looked up with it, at the size of the glyph, unless
/// the text asks for `geometricPrecision`.
pub proof fn law_selected_hinting_reaches_the_outline<G, X, C, S, R, H, O>(
    sources: GlyphSources<X, C, S, R, H, O>,
    rendering_mode: TextRendering,
    span: Span,
    glyph: PositionedGlyph,
    global: Option<FontHintingOptions>,
    fontdb: &Database,
    outline: Option<Outline>,
    options: FontHintingOptions,
) where
    X: Fn(ID) -> bool,
    C: Fn(ID, GlyphId, &Vec<FontVariation>) -> Option<G>,
    S: Fn(ID, GlyphId) -> Option<G>,
    R: Fn(BitmapGlyphKey) -> Option<BitmapImage>,
    H: Fn(ID, u32, Option<FontHintingOptions>, &Database) -> Option<FontHintingOptions>,
    O: Fn(ID, GlyphId, &Vec<FontVariation>, Option<GlyphHinting>) -> Option<tiny_skia_path::Path>,

    requires
        resolves_to(
            sources,
            rendering_mode,
            span,
            glyph,
            global,
            fontdb,
            GlyphContentView::<G>::Outline(outline),
        ),
        rendering_mode is OptimizeSpeed || rendering_mode is OptimizeLegibility,
        forall|answer: Option<FontHintingOptions>| #[trigger]
            call_ensures(
                sources.select_hinting,
                (glyph.font, glyph.font_size, global, fontdb),
                answer,
            ) ==> answer == Some(options),
    ensures
        exists|
            variations: Vec<FontVariation>,
            hinting: Option<GlyphHinting>,
            found: Option<tiny_skia_path::Path>,
        | #[trigger]
            call_ensures(sources.outline, (glyph.font, glyph.id, &variations, hinting), found) && {
                &&& hinting matches Some(hinting) && hinting.options == options && hinting.ppem
                    == glyph.font_size
                &&& are_variations(sources.has_opsz_axis, span, glyph, variations@)
                &&& outline == placed(outline_view(found), glyph.outline_transform)
            },
{
    law_outline_is_looked_up_as_selected(
        sources,
        rendering_mode,
        span,
        glyph,
        global,
        fontdb,
        outline,
    );
}

/// The first of paint, document and bitmap that is found is what a glyph is drawn
/// from, and the outline only where none is. A paint is looked up with the
/// variations of the glyph.
pub proof fn law_the_first_source_wins<G, X, C, S, R, H, O>(
    sources: GlyphSources<X, C, S, R, H, O>,
    rendering_mode: TextRendering,
    span: Span,
    glyph: PositionedGlyph,
    global: Option<FontHintingOptions>,
    fontdb: &Database,
    content: GlyphContentView<G>,
) where
    X: Fn(ID) -> bool,
    C: Fn(ID, GlyphId, &Vec<FontVariation>) -> Option<G>,
    S: Fn(ID, GlyphId) -> Option<G>,
    R: Fn(BitmapGlyphKey) -> Option<BitmapImage>,
    H: Fn(ID, u32, Option<FontHintingOptions>, &Database) -> Option<FontHintingOptions>,
    O: Fn(ID, GlyphId, &Vec<FontVariation>, Option<GlyphHinting>) -> Option<tiny_skia_path::Path>,

    requires
        resolves_to(sources, rendering_mode, span, glyph, global, fontdb, content),
    ensures
        exists|variations: Vec<FontVariation>, paint: Option<G>| #[trigger]
            call_ensures(sources.colr, (glyph.font, glyph.id, &variations), paint) && are_variations(
                sources.has_opsz_axis,
                span,
                glyph,
                variations@,
            ) && match paint {
                Some(paint) => content == GlyphContentView::Colr(paint),
                None => content !is Colr,
            },
        content matches GlyphContentView::Svg(node) ==> call_ensures(
            sources.svg,
            (glyph.font, glyph.id),
            Some(node),
        ),
        content is Bitmap || content is Outline ==> call_ensures(
            sources.svg,
            (glyph.font, glyph.id),
            None::<G>,
        ),
        content matches GlyphContentView::Bitmap(image) ==> exists|found: BitmapImage| #[trigger]
            call_ensures(sources.raster, (bitmap_key(span, glyph),), Some(found)) && image
                == found@,
        content is Outline ==> call_ensures(
            sources.raster,
            (bitmap_key(span, glyph),),
            None::<BitmapImage>,
        ),
{
    let variations: Vec<FontVariation> = choose|variations: Vec<FontVariation>|
        are_variations(sources.has_opsz_axis, span, glyph, variations@) && #[trigger] is_content(
            sources,
            rendering_mode,
            span,
            glyph,
            global,
            fontdb,
            variations,
            content,
        );
    let paint: Option<G> = match content {
        GlyphContentView::Colr(paint) => Some(paint),
        _ => None,
    };
    assert(call_ensures(sources.colr, (glyph.font, glyph.id, &variations), paint));
}

/// What a glyph is said to be drawn from is what it is drawn from.
pub proof fn law_content_view_is_faithful<G>(content: GlyphContent<G>)
    ensures
        match content {
            GlyphContent::Colr(group) => content@ == GlyphContentView::Colr(group),
            GlyphContent::Svg(node) => content@ == GlyphContentView::Svg(node),
            GlyphContent::Bitmap(image) => content@ == GlyphContentView::<G>::Bitmap(image@),
            GlyphContent::Outline(path) => content@ == GlyphContentView::<G>::Outline(
                outline_view(path),
            ),
        },
{
}

} // verus!
