//! Bitmap glyphs, i.e. the `CBDT`, `EBDT` and `sbix` strikes a font may carry
//! next to, or instead of, its outlines.

use fontdb::{Database, ID};
use skrifa::bitmap::{BitmapData, BitmapFormat, MaskData};
use vstd::prelude::*;

use crate::face::{
    bounds_of, face_bytes, face_indices, find_outline, glyph_bounds, glyph_for_size, has_outline,
    is_bounds, is_composed, strike_for_size, strike_format, strike_format_of, BoundingBox, Strike,
    StrikeData, StrikeView,
};
use crate::float_bits::{whole_number, whole_number_of};
use crate::pixels::{
    bgra_rgba, bgra_to_rgba, law_bgra_image_is_straight, law_mask_image_is_the_fill_under_the_mask,
    mask_rgba, mask_to_rgba, mask_view, MaskView,
};
use crate::tree::{size_from_wh, Color, GlyphId, Image, ImageRendering, ImageView, Size};

verus! {

/// Identifies a bitmap glyph, together with everything its appearance depends
/// on, so that it can be cached.
#[derive(Clone, Copy, PartialEq, Eq, Hash, Debug)]
pub struct BitmapGlyphKey {
    pub font: ID,
    pub glyph: GlyphId,
    /// The size picks the strike, so the same glyph differs between sizes.
    /// Kept as raw bits, since a single precision number has neither an
    /// equivalence nor a hash.
    pub font_size: u32,
    /// A mask stores coverage only and is painted with the fill of the span, so
    /// the same glyph differs between fills.
    pub fill: [u8; 4],
}

impl BitmapGlyphKey {
    /// The key of a glyph at a font size, given as its bits, under a fill.
    pub fn new(
        font: ID,
        glyph: GlyphId,
        font_size: u32,
        fill_color: Color,
        fill_opacity: u8,
    ) -> (res: Self)
        ensures
            res == key_of(font, glyph, font_size, fill_color, fill_opacity),
            res.color() == fill_color,
            res.opacity() == fill_opacity,
    {
        BitmapGlyphKey {
            font,
            glyph,
            font_size,
            fill: [fill_color.red, fill_color.green, fill_color.blue, fill_opacity],
        }
    }

    /// The bits of the font size.
    pub fn font_size(&self) -> (res: u32)
        ensures
            res == self.font_size,
    {
        self.font_size
    }

    /// The color that a mask is painted with.
    pub fn fill_color(&self) -> (res: Color)
        ensures
            res == self.color(),
    {
        Color::new_rgb(self.fill[0], self.fill[1], self.fill[2])
    }

    /// The opacity that a mask is painted with.
    pub fn fill_opacity(&self) -> (res: u8)
        ensures
            res == self.opacity(),
    {
        self.fill[3]
    }

    /// What [`BitmapGlyphKey::fill_color`] returns.
    pub open spec fn color(self) -> Color {
        Color { red: self.fill@[0], green: self.fill@[1], blue: self.fill@[2] }
    }

    /// What [`BitmapGlyphKey::fill_opacity`] returns.
    pub open spec fn opacity(self) -> u8 {
        self.fill@[3]
    }
}

/// What [`BitmapGlyphKey::new`] returns.
pub open spec fn key_of(
    font: ID,
    glyph: GlyphId,
    font_size: u32,
    fill_color: Color,
    fill_opacity: u8,
) -> BitmapGlyphKey {
    BitmapGlyphKey {
        font,
        glyph,
        font_size,
        fill: [fill_color.red, fill_color.green, fill_color.blue, fill_opacity],
    }
}

/// A bitmap glyph, ready to be placed by the caller.
#[derive(Clone, Debug)]
pub struct BitmapImage {
    pub image: Image,
    pub x: i16,
    pub y: i16,
    pub pixels_per_em: u16,
    pub glyph_bbox: Option<BoundingBox>,
    pub is_sbix: bool,
}

/// What a [`BitmapImage`] holds.
pub struct BitmapImageView {
    pub image: ImageView,
    pub x: i16,
    pub y: i16,
    pub pixels_per_em: u16,
    pub glyph_bbox: Option<BoundingBox>,
    pub is_sbix: bool,
}

impl View for BitmapImage {
    type V = BitmapImageView;

    open spec fn view(&self) -> BitmapImageView {
        BitmapImageView {
            image: self.image@,
            x: self.x,
            y: self.y,
            pixels_per_em: self.pixels_per_em,
            glyph_bbox: self.glyph_bbox,
            is_sbix: self.is_sbix,
        }
    }
}

/// The widest image whose rows can be compressed: the compressor counts runs of
/// zero bytes in 32 bits, and a run can be as long as a row of four bytes per
/// pixel and its filter byte.
pub const MAX_PNG_WIDTH: u32 = 0x3fff_ffff;

/// Names the PNG file that an 8-bit RGBA image becomes.
pub uninterp spec fn png_encoding(rgba: Seq<u8>, width: u32, height: u32) -> Seq<u8>;

/// Encodes 8-bit RGBA pixels as PNG, the only raw image format an [`Image`] can
/// carry. `CBDT`/`EBDT` strikes store uncompressed bitmaps, so they have to be
/// re-encoded before they can be embedded into the tree.
///
/// `png::Encoder` does the work. It fails for an image without pixels and for
/// nothing else, since the buffer has the length that the size asks for and
/// writing to memory does not fail.
#[verifier::external_body]
fn encode_rgba_png(rgba: &[u8], width: u32, height: u32) -> (res: Option<Vec<u8>>)
    requires
        rgba@.len() == width * height * 4,
        width <= MAX_PNG_WIDTH,
    ensures
        match res {
            Some(png) => {
                &&& width > 0 && height > 0
                &&& png@ == png_encoding(rgba@, width, height)
            },
            None => width == 0 || height == 0,
        },
{
    let mut png_data = Vec::new();
    let mut encoder = png::Encoder::new(&mut png_data, width, height);
    encoder.set_color(png::ColorType::Rgba);
    encoder.set_depth(png::BitDepth::Eight);
    // Glyph bitmaps are small and usually decoded again right away, but the
    // tree can also be written back out as SVG with the image embedded, so
    // don't skip compression entirely.
    encoder.set_compression(png::Compression::Fast);
    let mut writer = encoder.write_header().ok()?;
    writer.write_image_data(rgba).ok()?;
    writer.finish().ok()?;
    Some(png_data)
}

/// The PNG file that a mask becomes: none for an invalid bit depth, for an
/// image that cannot be addressed and for one without pixels.
pub open spec fn mask_png(mask: MaskView, width: u32, height: u32, color: Color, opacity: u8) -> Option<
    Seq<u8>,
> {
    if mask.has_valid_depth() && width * height * 4 <= usize::MAX && width > 0 && height > 0 {
        Some(png_encoding(mask_rgba(mask, width, height, color, opacity), width, height))
    } else {
        None
    }
}

/// Converts a 1, 2, 4 or 8 bits-per-pixel bitmap mask into PNG data.
///
/// A mask only stores coverage, so the glyph is painted in `color`, just like an
/// outline glyph would be. `opacity` is the fill opacity, which an image cannot
/// carry on its own.
pub fn mask_to_png(
    mask: &MaskData,
    width: u32,
    height: u32,
    color: Color,
    opacity: u8,
) -> (res: Option<Vec<u8>>)
    requires
        width <= MAX_PNG_WIDTH || mask_png(
            mask_view(*mask),
            width,
            height,
            color,
            opacity,
        ) is None,
    ensures
        match res {
            Some(png) => mask_png(mask_view(*mask), width, height, color, opacity) == Some(png@),
            None => mask_png(mask_view(*mask), width, height, color, opacity) is None,
        },
{
    let rgba: Vec<u8> = mask_to_rgba(mask, width, height, color, opacity)?;
    if width == 0 || height == 0 {
        return None;
    }
    encode_rgba_png(rgba.as_slice(), width, height)
}

/// The PNG file that premultiplied BGRA becomes: none when there is too little
/// data and for an image without pixels.
pub open spec fn bgra_png(data: Seq<u8>, width: u32, height: u32) -> Option<Seq<u8>> {
    if width * height * 4 <= data.len() && width > 0 && height > 0 {
        Some(png_encoding(bgra_rgba(data, width, height), width, height))
    } else {
        None
    }
}

/// Converts a premultiplied BGRA color bitmap into PNG data.
pub fn bgra_to_png(data: &[u8], width: u32, height: u32) -> (res: Option<Vec<u8>>)
    requires
        width <= MAX_PNG_WIDTH || bgra_png(data@, width, height) is None,
    ensures
        match res {
            Some(png) => bgra_png(data@, width, height) == Some(png@),
            None => bgra_png(data@, width, height) is None,
        },
{
    let rgba: Vec<u8> = bgra_to_rgba(data, width, height)?;
    if width == 0 || height == 0 {
        return None;
    }
    encode_rgba_png(rgba.as_slice(), width, height)
}

/// The strike, if it was drawn for `ppem` pixels per em.
pub open spec fn drawn_for(strike: Option<StrikeView>, ppem: u16) -> Option<StrikeView> {
    match strike {
        Some(strike) if strike.ppem_y == ppem => Some(strike),
        _ => None,
    }
}

/// The mask strike that will be used for a glyph of a face at a font size.
///
/// No strike is drawn for a size that is not a whole number of pixels, so there
/// is none to match such a size.
pub open spec fn matching_mask_of(data: Seq<u8>, index: u32, glyph: u32, font_size: u32) -> Option<
    StrikeView,
> {
    match strike_for_size(data, index, None, glyph) {
        Some(largest) if largest.is_mask() => match whole_number_of(font_size) {
            Some(ppem) => drawn_for(strike_for_size(data, index, Some(ppem), glyph), ppem),
            None => None,
        },
        _ => None,
    }
}

/// What `strike` holds, if there is one.
pub open spec fn strike_view(strike: Option<Strike>) -> Option<StrikeView> {
    match strike {
        Some(strike) => Some(strike@),
        None => None,
    }
}

/// The mask strike that will be used for `glyph_id` at `font_size`, if any.
///
/// A mask is one size specific rendering of the design the outline already
/// describes, so it is only used at the size it was drawn for — see [`glyph`],
/// which this has to agree with, or layout would space a glyph for a strike
/// that is never drawn.
pub fn matching_mask<'a>(data: &'a [u8], index: u32, glyph_id: GlyphId, font_size: u32) -> (res:
    Option<Strike<'a>>)
    ensures
        strike_view(res) == matching_mask_of(data@, index, glyph_id.0, font_size),
        res matches Some(strike) ==> strike@.fits_its_table(strike_format_of(data@, index)),
        res is Some ==> strike_format_of(data@, index) != Some(BitmapFormat::Sbix),
        strike_for_size(data@, index, None, glyph_id.0) matches Some(largest)
            && largest.is_mask() && whole_number_of(font_size) == Some(largest.ppem_y)
            ==> res is Some,
{
    // The largest available image tells us what kind of strike this font has.
    let largest: Strike<'a> = glyph_for_size(data, index, None, glyph_id)?;
    if !is_mask(&largest) {
        return None;
    }
    let ppem: u16 = whole_number(font_size)?;
    let strike: Strike<'a> = glyph_for_size(data, index, Some(ppem), glyph_id)?;
    if strike.ppem_y == ppem {
        Some(strike)
    } else {
        None
    }
}

fn is_mask(strike: &Strike) -> (res: bool)
    ensures
        res == strike@.is_mask(),
{
    match strike.data {
        BitmapData::Mask(_) => true,
        _ => false,
    }
}

/// The advance width that a matching strike gives a glyph.
pub open spec fn mask_advance_of(data: Seq<u8>, index: u32, glyph: u32, font_size: u32) -> Option<
    u16,
> {
    if has_outline(data, index, glyph) {
        match matching_mask_of(data, index, glyph, font_size) {
            Some(strike) => strike.advance,
            None => None,
        }
    } else {
        None
    }
}

/// The advance width, in pixels, that the strike itself gives for a glyph — or
/// `None` where no strike is used and the outline's advance stands.
///
/// A strike carries its own metrics, drawn in whole pixels for its own pixel
/// size, and they are not the outline's metrics scaled: a pixel font is drawn
/// per size, so the two only agree at the one size the outline was fitted to.
/// Spacing bitmap glyphs by the outline's advance is therefore wrong twice
/// over — the glyphs sit at the wrong distance from each other, and, because a
/// scaled advance is rarely a whole number of pixels, every glyph after the
/// first lands between pixels, where the strike cannot be reproduced.
pub fn mask_advance(data: &[u8], index: u32, glyph_id: GlyphId, font_size: u32) -> (res: Option<
    u16,
>)
    ensures
        res == mask_advance_of(data@, index, glyph_id.0, font_size),
        res is Some <==> has_outline(data@, index, glyph_id.0) && matching_mask_of(
            data@,
            index,
            glyph_id.0,
            font_size,
        ) is Some,
{
    // A glyph with no outline at all keeps whatever strike it has, at any
    // size, so its image is scaled and its advance is not this one.
    if !find_outline(data, index, glyph_id) {
        return None;
    }
    match matching_mask(data, index, glyph_id, font_size) {
        Some(strike) => strike.advance,
        None => None,
    }
}

/// The strike that a glyph is drawn from, out of the largest one, the mask that
/// matches the size and whether there is an outline to fall back to.
///
/// A mask is one size specific rendering of the same design the outline
/// already describes, drawn for the exact size of its strike. Scaling one
/// looks far worse than drawing that outline, so prefer a strike that
/// matches the size and leave the glyph to its outline otherwise.
///
/// A color bitmap is the intended appearance of the glyph rather than a
/// rendering of the outline, so it stays preferred at any size. An sbix
/// font relies on that: it ships outlines behind its bitmaps as a
/// fallback for renderers without sbix support, so treating the outline
/// as the better choice would invert what the font intends.
pub open spec fn chosen_strike(
    largest: Option<StrikeView>,
    matching: Option<StrikeView>,
    outlined: bool,
) -> Option<StrikeView> {
    match largest {
        Some(largest) if largest.is_mask() => match matching {
            Some(matching) => Some(matching),
            None => if outlined {
                None
            } else {
                Some(largest)
            },
        },
        _ => largest,
    }
}

/// Picks the strike that a glyph is drawn from.
pub fn choose_strike<'a>(
    largest: Option<Strike<'a>>,
    matching: Option<Strike<'a>>,
    outlined: bool,
) -> (res: Option<Strike<'a>>)
    ensures
        strike_view(res) == chosen_strike(strike_view(largest), strike_view(matching), outlined),
        res == largest || res == matching || res is None,
{
    let largest: Strike<'a> = largest?;
    if !is_mask(&largest) {
        return Some(largest);
    }
    match matching {
        Some(matching) => Some(matching),
        // Keep the unscaled bitmap for a glyph that has nothing else.
        None => if outlined {
            None
        } else {
            Some(largest)
        },
    }
}

/// The PNG file that a strike becomes.
pub open spec fn strike_png(strike: StrikeView, color: Color, opacity: u8) -> Option<Seq<u8>> {
    match strike.data {
        StrikeData::Png(bytes) => Some(bytes),
        StrikeData::Bgra(bytes) => bgra_png(bytes, strike.width, strike.height),
        StrikeData::Mask(mask) => mask_png(mask, strike.width, strike.height, color, opacity),
    }
}

/// How the image of a strike is rendered.
///
/// A mask comes from a pixel font, which is drawn for one specific
/// size. Smoothing one of those blurs the very pixel grid it was
/// drawn on, and bleeds into the transparent border of the image
/// where a stem touches the edge of the glyph box, so keep the
/// pixels intact instead.
pub open spec fn strike_rendering(strike: StrikeView) -> ImageRendering {
    if strike.is_mask() {
        ImageRendering::Pixelated
    } else {
        ImageRendering::OptimizeQuality
    }
}

/// The image that a strike becomes.
pub open spec fn strike_image(
    strike: StrikeView,
    color: Color,
    opacity: u8,
    bbox: Option<BoundingBox>,
    is_sbix: bool,
) -> Option<BitmapImageView> {
    match (strike_png(strike, color, opacity), size_from_wh(strike.width, strike.height)) {
        (Some(png), Some(size)) => Some(
            BitmapImageView {
                image: ImageView {
                    visible: true,
                    size,
                    rendering_mode: strike_rendering(strike),
                    png,
                },
                x: strike.inner_bearing_x,
                y: strike.inner_bearing_y,
                pixels_per_em: strike.ppem_x,
                glyph_bbox: bbox,
                is_sbix,
            },
        ),
        _ => None,
    }
}

/// What `image` holds, if there is one.
pub open spec fn image_view(image: Option<BitmapImage>) -> Option<BitmapImageView> {
    match image {
        Some(image) => Some(image@),
        None => None,
    }
}

/// Converts a strike into an image. A mask is painted with `color` and
/// `opacity`.
pub fn image_from_strike(
    strike: &Strike,
    color: Color,
    opacity: u8,
    bbox: Option<BoundingBox>,
    is_sbix: bool,
) -> (res: Option<BitmapImage>)
    requires
        strike.data is Png || strike.width <= MAX_PNG_WIDTH || strike_png(
            strike@,
            color,
            opacity,
        ) is None,
    ensures
        image_view(res) == strike_image(strike@, color, opacity, bbox, is_sbix),
{
    let (png, rendering_mode): (Vec<u8>, ImageRendering) = match &strike.data {
        BitmapData::Png(bytes) => (copy_bytes(bytes), ImageRendering::OptimizeQuality),
        BitmapData::Bgra(bytes) => (
            bgra_to_png(bytes, strike.width, strike.height)?,
            ImageRendering::OptimizeQuality,
        ),
        BitmapData::Mask(mask) => (
            mask_to_png(mask, strike.width, strike.height, color, opacity)?,
            ImageRendering::Pixelated,
        ),
    };
    Some(
        BitmapImage {
            image: Image {
                visible: true,
                size: Size::from_wh(strike.width, strike.height)?,
                rendering_mode,
                png,
            },
            x: strike.inner_bearing_x,
            y: strike.inner_bearing_y,
            pixels_per_em: strike.ppem_x,
            glyph_bbox: bbox,
            is_sbix,
        },
    )
}

fn copy_bytes(bytes: &[u8]) -> (res: Vec<u8>)
    ensures
        res@ == bytes@,
{
    let mut res: Vec<u8> = Vec::new();
    res.extend_from_slice(bytes);
    assert(res@ =~= bytes@);
    res
}

/// The image that a glyph of a face with this bounding box is drawn from.
pub open spec fn glyph_of(
    data: Seq<u8>,
    index: u32,
    key: BitmapGlyphKey,
    bbox: Option<BoundingBox>,
) -> Option<BitmapImageView> {
    match chosen_strike(
        strike_for_size(data, index, None, key.glyph.0),
        matching_mask_of(data, index, key.glyph.0, key.font_size),
        has_outline(data, index, key.glyph.0),
    ) {
        Some(strike) => strike_image(
            strike,
            key.color(),
            key.opacity(),
            bbox,
            strike_format_of(data, index) == Some(BitmapFormat::Sbix),
        ),
        None => None,
    }
}

/// Whether a glyph of a face can be drawn from this image, or from none.
pub open spec fn is_glyph(
    data: Seq<u8>,
    index: u32,
    key: BitmapGlyphKey,
    image: Option<BitmapImageView>,
) -> bool {
    exists|bbox: Option<BoundingBox>| #[trigger]
        is_bounds(data, index, key.glyph.0, bbox) && image == glyph_of(data, index, key, bbox)
}

/// Looks up a bitmap glyph of the face at `index` of the font file `data` and
/// converts it into an image.
///
/// Returns `None` when the glyph should be drawn from its outline instead.
pub fn glyph_in_face(data: &[u8], index: u32, key: BitmapGlyphKey) -> (res: Option<BitmapImage>)
    ensures
        is_glyph(data@, index, key, image_view(res)),
        !is_composed(data@, index) ==> image_view(res) == glyph_of(
            data@,
            index,
            key,
            bounds_of(data@, index, key.glyph.0),
        ),
{
    // What is not asked for cannot change the outcome.
    assert(is_bounds(
        data@,
        index,
        key.glyph.0,
        bounds_of(data@, index, key.glyph.0),
    ));

    // An unscaled size asks for the largest image available.
    let largest: Strike = glyph_for_size(data, index, None, key.glyph)?;
    let (matching, outlined): (Option<Strike>, bool) = if is_mask(&largest) {
        match matching_mask(data, index, key.glyph, key.font_size()) {
            Some(matching) => (Some(matching), false),
            None => (None, find_outline(data, index, key.glyph)),
        }
    } else {
        (None, false)
    };
    let strike: Strike = choose_strike(Some(largest), matching, outlined)?;
    let is_sbix: bool = match strike_format(data, index) {
        Some(BitmapFormat::Sbix) => true,
        _ => false,
    };
    let mut image: BitmapImage = image_from_strike(
        &strike,
        key.fill_color(),
        key.fill_opacity(),
        None,
        is_sbix,
    )?;
    let bbox: Option<BoundingBox> = glyph_bounds(data, index, key.glyph);
    image.glyph_bbox = bbox;
    assert(is_bounds(data@, index, key.glyph.0, bbox));
    Some(image)
}

/// Looks up a bitmap glyph and converts it into an image.
///
/// Returns `None` when the glyph should be drawn from its outline instead, and
/// when the face cannot be loaded. One that is held in memory always can be.
pub fn glyph(fontdb: &Database, key: BitmapGlyphKey) -> (res: Option<BitmapImage>)
    ensures
        res is Some ==> face_indices(*fontdb).dom().contains(key.font),
        res is Some ==> exists|data: Seq<u8>| #[trigger]
            is_glyph(data, face_indices(*fontdb)[key.font], key, image_view(res)),
        face_bytes(*fontdb).dom().contains(key.font) ==> is_glyph(
            face_bytes(*fontdb)[key.font],
            face_indices(*fontdb)[key.font],
            key,
            image_view(res),
        ),
{
    let in_face = |data: &[u8], index: u32| -> (image: Option<BitmapImage>)
        ensures is_glyph(data@, index, key, image_view(image))
    { glyph_in_face(data, index, key) };
    fontdb.with_face_data(key.font, in_face)?
}

/// Layout and drawing agree: where a strike's own advance is used, the glyph is
/// drawn from that very strike.
///
/// The strike always becomes an image then, unless it has no pixels at all.
pub proof fn law_advance_is_that_of_the_drawn_strike(
    data: Seq<u8>,
    index: u32,
    key: BitmapGlyphKey,
    strike: StrikeView,
    bbox: Option<BoundingBox>,
)
    requires
        mask_advance_of(data, index, key.glyph.0, key.font_size) is Some,
        matching_mask_of(data, index, key.glyph.0, key.font_size) == Some(strike),
        strike.fits_its_table(strike_format_of(data, index)),
    ensures
        mask_advance_of(data, index, key.glyph.0, key.font_size) == strike.advance,
        glyph_of(data, index, key, bbox) == strike_image(
            strike,
            key.color(),
            key.opacity(),
            bbox,
            strike_format_of(data, index) == Some(BitmapFormat::Sbix),
        ),
        strike.width > 0 && strike.height > 0 ==> glyph_of(data, index, key, bbox) is Some,
{
    assert(0 <= strike.width * strike.height <= 255 * 255) by (nonlinear_arith)
        requires
            0 <= strike.width <= 255,
            0 <= strike.height <= 255,
    ;
}

/// Where no mask matches the size, a glyph with an outline is left to it, and
/// keeps the advance of that outline.
pub proof fn law_unmatched_mask_is_left_to_the_outline(
    data: Seq<u8>,
    index: u32,
    key: BitmapGlyphKey,
    bbox: Option<BoundingBox>,
)
    requires
        strike_for_size(data, index, None, key.glyph.0) matches Some(largest) && largest.is_mask(),
        matching_mask_of(data, index, key.glyph.0, key.font_size) is None,
        has_outline(data, index, key.glyph.0),
    ensures
        glyph_of(data, index, key, bbox) is None,
        mask_advance_of(data, index, key.glyph.0, key.font_size) is None,
{
}

/// A color bitmap is drawn at any size, and so is the mask of a glyph that has
/// no outline and no mask for the size.
pub proof fn law_largest_strike_serves_any_size(
    data: Seq<u8>,
    index: u32,
    glyph: u32,
    font_size: u32,
)
    requires
        strike_for_size(data, index, None, glyph) matches Some(largest) && (!largest.is_mask() || {
            &&& !has_outline(data, index, glyph)
            &&& matching_mask_of(data, index, glyph, font_size) is None
        }),
    ensures
        chosen_strike(
            strike_for_size(data, index, None, glyph),
            matching_mask_of(data, index, glyph, font_size),
            has_outline(data, index, glyph),
        ) == strike_for_size(data, index, None, glyph),
        mask_advance_of(data, index, glyph, font_size) is None,
{
}

/// A key holds everything that the appearance depends on: two keys of one glyph
/// of one face that agree on the size and the fill stand for the same image.
pub proof fn law_key_determines_the_image(
    data: Seq<u8>,
    index: u32,
    a: BitmapGlyphKey,
    b: BitmapGlyphKey,
    image: Option<BitmapImageView>,
)
    requires
        a.glyph == b.glyph,
        a.font_size == b.font_size,
        a.color() == b.color(),
        a.opacity() == b.opacity(),
    ensures
        is_glyph(data, index, a, image) <==> is_glyph(data, index, b, image),
        forall|bbox: Option<BoundingBox>| #[trigger]
            glyph_of(data, index, a, bbox) == glyph_of(data, index, b, bbox),
{
}

/// Only a mask is painted with the fill: the image of a color bitmap is the
/// same under every fill.
pub proof fn law_fill_paints_masks_only(
    strike: StrikeView,
    color_a: Color,
    opacity_a: u8,
    color_b: Color,
    opacity_b: u8,
    bbox: Option<BoundingBox>,
    is_sbix: bool,
)
    requires
        !strike.is_mask(),
    ensures
        strike_image(strike, color_a, opacity_a, bbox, is_sbix) == strike_image(
            strike,
            color_b,
            opacity_b,
            bbox,
            is_sbix,
        ),
{
}

/// Keys of one face are told apart by glyph, size and fill alone.
pub proof fn law_keys_differ_as_their_parts_do(
    font: ID,
    glyph_a: GlyphId,
    size_a: u32,
    color_a: Color,
    opacity_a: u8,
    glyph_b: GlyphId,
    size_b: u32,
    color_b: Color,
    opacity_b: u8,
)
    ensures
        key_of(font, glyph_a, size_a, color_a, opacity_a) == key_of(
            font,
            glyph_b,
            size_b,
            color_b,
            opacity_b,
        ) <==> glyph_a == glyph_b && size_a == size_b && color_a == color_b && opacity_a
            == opacity_b,
{
    let a: BitmapGlyphKey = key_of(font, glyph_a, size_a, color_a, opacity_a);
    let b: BitmapGlyphKey = key_of(font, glyph_b, size_b, color_b, opacity_b);
    if a == b {
        assert(a.fill@ == b.fill@);
        assert(a.color() == b.color());
        assert(a.opacity() == b.opacity());
    }
}

/// A mask is used at the size it was drawn for, and at no other: the font size
/// is the whole number of pixels per em of the strike. It is the strike that the
/// face has for that size, and the largest image of the glyph is a mask, too.
pub proof fn law_mask_is_used_only_at_its_size(
    data: Seq<u8>,
    index: u32,
    glyph: u32,
    font_size: u32,
    strike: StrikeView,
)
    requires
        matching_mask_of(data, index, glyph, font_size) == Some(strike),
    ensures
        whole_number_of(font_size) == Some(strike.ppem_y),
        strike_for_size(data, index, Some(strike.ppem_y), glyph) == Some(strike),
        strike_for_size(data, index, None, glyph) matches Some(largest) && largest.data is Mask,
{
}

/// A mask that was drawn for the font size is used at it, in any face whose
/// largest image of the glyph is a mask.
pub proof fn law_mask_is_used_at_its_size(
    data: Seq<u8>,
    index: u32,
    glyph: u32,
    font_size: u32,
    strike: StrikeView,
)
    requires
        strike_for_size(data, index, None, glyph) matches Some(largest) && largest.data is Mask,
        whole_number_of(font_size) == Some(strike.ppem_y),
        strike_for_size(data, index, Some(strike.ppem_y), glyph) == Some(strike),
    ensures
        matching_mask_of(data, index, glyph, font_size) == Some(strike),
{
}

/// An advance is that of the strike that matches the size, and there is one
/// exactly if that strike gives one and the glyph has an outline as well.
pub proof fn law_advance_comes_from_the_matching_strike(
    data: Seq<u8>,
    index: u32,
    glyph: u32,
    font_size: u32,
    advance: u16,
)
    ensures
        mask_advance_of(data, index, glyph, font_size) == Some(advance) <==> has_outline(
            data,
            index,
            glyph,
        ) && (matching_mask_of(data, index, glyph, font_size) matches Some(strike)
            && strike.advance == Some(advance)),
{
}

/// Color bitmaps are kept at any size. Of a mask, the strike that matches the
/// size is taken, whether there is an outline or not. Without such a strike the
/// glyph is left to its outline, and without that the largest mask is kept.
/// Nothing else is ever picked.
pub proof fn law_a_strike_is_picked_by_kind_and_size(
    largest: Option<StrikeView>,
    matching: Option<StrikeView>,
    outlined: bool,
)
    ensures
        largest is None ==> chosen_strike(largest, matching, outlined) is None,
        largest matches Some(strike) ==> {
            let chosen = chosen_strike(largest, matching, outlined);
            &&& strike.data !is Mask ==> chosen == Some(strike)
            &&& strike.data is Mask && matching is Some ==> chosen == matching
            &&& strike.data is Mask && matching is None && outlined ==> chosen is None
            &&& strike.data is Mask && matching is None && !outlined ==> chosen == Some(strike)
        },
{
}

/// The same of a glyph of a face: it is drawn from the one strike that its kind
/// and the font size pick, painted with the fill of the key, or not at all.
pub proof fn law_glyph_is_drawn_from_the_picked_strike(
    data: Seq<u8>,
    index: u32,
    key: BitmapGlyphKey,
    bbox: Option<BoundingBox>,
)
    ensures
        ({
            let drawn = glyph_of(data, index, key, bbox);
            let matching = matching_mask_of(data, index, key.glyph.0, key.font_size);
            let fill = Color { red: key.fill@[0], green: key.fill@[1], blue: key.fill@[2] };
            let is_sbix = strike_format_of(data, index) == Some(BitmapFormat::Sbix);
            let image = |strike: StrikeView|
                strike_image(strike, fill, key.fill@[3], bbox, is_sbix);
            match strike_for_size(data, index, None, key.glyph.0) {
                None => drawn is None,
                Some(largest) => if !(largest.data is Mask) {
                    drawn == image(largest)
                } else if matching is Some {
                    drawn == image(matching->0)
                } else if has_outline(data, index, key.glyph.0) {
                    drawn is None
                } else {
                    drawn == image(largest)
                },
            }
        }),
{
}

/// The bounding box of an image is that of the glyph, which only a face of
/// composed outlines leaves open. Everything else is fixed.
pub proof fn law_glyph_has_its_bounds(
    data: Seq<u8>,
    index: u32,
    key: BitmapGlyphKey,
    image: Option<BitmapImageView>,
)
    requires
        is_glyph(data, index, key, image),
    ensures
        !is_composed(data, index) ==> image == glyph_of(
            data,
            index,
            key,
            bounds_of(data, index, key.glyph.0),
        ),
        !is_composed(data, index) && image is Some ==> image->0.glyph_bbox == bounds_of(
            data,
            index,
            key.glyph.0,
        ),
        exists|bbox: Option<BoundingBox>| image == #[trigger] glyph_of(data, index, key, bbox),
{
    let bbox: Option<BoundingBox> = choose|bbox: Option<BoundingBox>| #[trigger]
        is_bounds(data, index, key.glyph.0, bbox) && image == glyph_of(data, index, key, bbox);
    assert(image == glyph_of(data, index, key, bbox));
}

/// An image has the size, the bearings and the horizontal pixels per em of its
/// strike. An encoded image is kept byte by byte. Only a mask keeps its pixels
/// when it is scaled.
pub proof fn law_image_shows_its_strike(
    strike: StrikeView,
    color: Color,
    opacity: u8,
    bbox: Option<BoundingBox>,
    is_sbix: bool,
    image: BitmapImageView,
)
    requires
        strike_image(strike, color, opacity, bbox, is_sbix) == Some(image),
    ensures
        image.x == strike.inner_bearing_x,
        image.y == strike.inner_bearing_y,
        image.pixels_per_em == strike.ppem_x,
        image.glyph_bbox == bbox,
        image.is_sbix == is_sbix,
        image.image.visible,
        image.image.size.width == strike.width,
        image.image.size.height == strike.height,
        strike.data is Mask ==> image.image.rendering_mode == ImageRendering::Pixelated,
        strike.data !is Mask ==> image.image.rendering_mode == ImageRendering::OptimizeQuality,
        match strike.data {
            StrikeData::Png(bytes) => image.image.png == bytes,
            StrikeData::Bgra(bytes) => bgra_png(bytes, strike.width, strike.height) == Some(
                image.image.png,
            ),
            StrikeData::Mask(mask) => mask_png(mask, strike.width, strike.height, color, opacity)
                == Some(image.image.png),
        },
{
}

/// A strike becomes an image exactly if it has pixels, and data for all of them
/// where it is neither encoded nor a mask, whose missing pixels are transparent.
pub proof fn law_strikes_with_pixels_become_images(
    strike: StrikeView,
    color: Color,
    opacity: u8,
    bbox: Option<BoundingBox>,
    is_sbix: bool,
)
    ensures
        strike_image(strike, color, opacity, bbox, is_sbix) is Some <==> {
            &&& strike.width > 0 && strike.height > 0
            &&& match strike.data {
                StrikeData::Png(_) => true,
                StrikeData::Bgra(bytes) => strike.width * strike.height * 4 <= bytes.len(),
                StrikeData::Mask(mask) => {
                    &&& mask.bpp == 1 || mask.bpp == 2 || mask.bpp == 4 || mask.bpp == 8
                    &&& strike.width * strike.height * 4 <= usize::MAX
                },
            }
        },
{
}

/// The file of a mask is the encoding of the one image whose pixels are all in
/// the fill color, each with its coverage times the opacity, rounded down, as
/// its alpha.
pub proof fn law_mask_file_holds_the_painted_mask(
    mask: MaskView,
    width: u32,
    height: u32,
    color: Color,
    opacity: u8,
    rgba: Seq<u8>,
)
    requires
        mask.bpp == 1 || mask.bpp == 2 || mask.bpp == 4 || mask.bpp == 8,
        width > 0,
        height > 0,
        width * height * 4 <= usize::MAX,
        rgba.len() == width * height * 4,
        forall|x: u32, y: u32|
            x < width && y < height ==> {
                let at = 4 * (y * width + x);
                let painted = #[trigger] mask.coverage(x as nat, y as nat, width as nat) * opacity;
                &&& rgba[at] == color.red
                &&& rgba[at + 1] == color.green
                &&& rgba[at + 2] == color.blue
                &&& 255 * rgba[at + 3] <= painted < 255 * rgba[at + 3] + 255
            },
    ensures
        mask_png(mask, width, height, color, opacity) == Some(png_encoding(rgba, width, height)),
{
    let image: Seq<u8> = mask_rgba(mask, width, height, color, opacity);
    assert forall|i: int| 0 <= i < rgba.len() implies rgba[i] == #[trigger] image[i] by {
        let pixel: int = i / 4;
        let x: int = pixel % width as int;
        let y: int = pixel / width as int;
        vstd::arithmetic::div_mod::lemma_fundamental_div_mod(pixel, width as int);
        vstd::arithmetic::div_mod::lemma_mod_bound(pixel, width as int);
        assert(pixel < width * height);
        assert(width * y == y * width) by (nonlinear_arith);
        assert(0 <= y < height) by (nonlinear_arith)
            requires
                0 <= pixel < width * height,
                pixel == y * width + x,
                0 <= x < width,
        ;
        law_mask_image_is_the_fill_under_the_mask(
            mask,
            width,
            height,
            color,
            opacity,
            x as u32,
            y as u32,
        );
        let painted: int = mask.coverage(x as nat, y as nat, width as nat) * opacity;
        assert(mask.coverage((x as u32) as nat, (y as u32) as nat, width as nat) * opacity
            == painted);
        assert(i == 4 * (y * width + x) + i % 4);
    }
    assert(rgba =~= image);
}

/// The file of premultiplied BGRA is the encoding of the one image with the same
/// alphas, whose colors are the premultiplied ones divided by the alpha, rounded
/// down and cut off at a full byte.
pub proof fn law_bgra_file_holds_the_straight_image(
    data: Seq<u8>,
    width: u32,
    height: u32,
    rgba: Seq<u8>,
)
    requires
        width > 0,
        height > 0,
        width * height * 4 <= data.len(),
        rgba.len() == width * height * 4,
        forall|pixel: int, channel: int|
            0 <= pixel < width * height && 0 <= channel < 3 ==> {
                let alpha = data[4 * pixel + 3];
                let premultiplied = data[4 * pixel + 2 - channel];
                let straight = #[trigger] rgba[4 * pixel + channel];
                &&& rgba[4 * pixel + 3] == alpha
                &&& alpha == 0 ==> straight == 0
                &&& premultiplied > alpha > 0 ==> straight == 255
                &&& premultiplied <= alpha && alpha > 0 ==> alpha * straight <= 255 * premultiplied
                    < alpha * straight + alpha
            },
    ensures
        bgra_png(data, width, height) == Some(png_encoding(rgba, width, height)),
{
    let image: Seq<u8> = bgra_rgba(data, width, height);
    assert forall|i: int| 0 <= i < rgba.len() implies rgba[i] == #[trigger] image[i] by {
        let pixel: int = i / 4;
        let channel: int = i % 4;
        assert(pixel < width * height);
        assert(i == 4 * pixel + channel);
        if channel == 3 {
            law_bgra_image_is_straight(data, width, height, pixel as nat, 0);
            assert(rgba[4 * pixel + 0] == rgba[4 * pixel]);
        } else {
            law_bgra_image_is_straight(data, width, height, pixel as nat, channel as nat);
            let a: int = data[4 * pixel + 3] as int;
            let c: int = data[4 * pixel + 2 - channel] as int;
            let u: int = rgba[4 * pixel + channel] as int;
            let v: int = image[4 * pixel + channel] as int;
            assert(a > 0 && c <= a ==> u == v) by (nonlinear_arith)
                requires
                    a > 0 && c <= a ==> a * u <= 255 * c < a * u + a,
                    a > 0 && c <= a ==> a * v <= 255 * c < a * v + a,
            ;
        }
    }
    assert(rgba =~= image);
}

/// A key gives back the parts that it was made from.
pub proof fn law_key_keeps_its_parts(
    font: ID,
    glyph: GlyphId,
    font_size: u32,
    color: Color,
    opacity: u8,
)
    ensures
        ({
            let key = key_of(font, glyph, font_size, color, opacity);
            &&& key.font == font
            &&& key.glyph == glyph
            &&& key.font_size == font_size
            &&& key.fill@ == seq![color.red, color.green, color.blue, opacity]
            &&& key.color().red == key.fill@[0]
            &&& key.color().green == key.fill@[1]
            &&& key.color().blue == key.fill@[2]
            &&& key.opacity() == key.fill@[3]
        }),
{
    assert(key_of(font, glyph, font_size, color, opacity).fill@ =~= seq![
        color.red,
        color.green,
        color.blue,
        opacity,
    ]);
}

/// What an image is said to hold is what it holds.
pub proof fn law_image_view_is_faithful(image: BitmapImage)
    ensures
        image@.x == image.x,
        image@.y == image.y,
        image@.pixels_per_em == image.pixels_per_em,
        image@.glyph_bbox == image.glyph_bbox,
        image@.is_sbix == image.is_sbix,
        image@.image.visible == image.image.visible,
        image@.image.size == image.image.size,
        image@.image.rendering_mode == image.image.rendering_mode,
        image@.image.png == image.image.png@,
        image_view(Some(image)) == Some(image@),
        image_view(None) is None,
{
}

} // verus!
