//! What a font face says about its glyphs.
//!
//! A face is the bytes of a font file and the index of the face in it. skrifa
//! reads it; every number that comes back is one that the face stores as an
//! integer, so it is held as one.

use fontdb::{Database, ID};
use skrifa::bitmap::{BitmapData, BitmapFormat};
use skrifa::raw::TableProvider;
use skrifa::MetadataProvider;
use vstd::prelude::*;

use crate::pixels::{mask_view, MaskView};
use crate::tree::GlyphId;

verus! {

/// A database of font faces. Opaque: only its faces' bytes are asked for.
#[verifier::external_type_specification]
#[verifier::external_body]
pub struct ExDatabase(fontdb::Database);

/// Identifies a face of a [`Database`].
#[verifier::external_type_specification]
#[verifier::external_body]
pub struct ExID(fontdb::ID);

/// Names the faces of a database, each with its index in its font file.
pub uninterp spec fn face_indices(db: Database) -> Map<ID, u32>;

/// Names the faces that a database holds in memory, each with the bytes of its
/// font file. A face counts as such if it was given as binary data that does not
/// change, rather than as a file.
pub uninterp spec fn face_bytes(db: Database) -> Map<ID, Seq<u8>>;

/// `fontdb::Database::with_face_data` looks a face up and calls `p` once with
/// its bytes and its index, or returns `None` and does not call it. It does not
/// for a face that is not in the database, and always does for one that is held
/// in memory.
///
/// Of a face that lives in a file, which is read anew on every call, it is left
/// unsaid which bytes `p` sees and when they cannot be had.
pub assume_specification<P, T>[ fontdb::Database::with_face_data::<P, T> ](
    db: &Database,
    id: ID,
    p: P,
) -> (res: Option<T>) where P: FnOnce(&[u8], u32) -> T
    requires
        forall|data: &[u8], index: u32| #[trigger] p.requires((data, index)),
    ensures
        res is Some ==> face_indices(*db).dom().contains(id),
        face_bytes(*db).dom().contains(id) ==> res is Some,
        res matches Some(t) ==> exists|data: &[u8]| #[trigger]
            p.ensures((data, face_indices(*db)[id]), t) && (face_bytes(*db).dom().contains(id)
                ==> data@ == face_bytes(*db)[id]),
;

/// The image of a bitmap glyph as skrifa hands it out: premultiplied BGRA, an
/// encoded PNG, or a mask.
#[verifier::external_type_specification]
pub struct ExBitmapData<'a>(skrifa::bitmap::BitmapData<'a>);

/// The tables that bitmap strikes can come from.
#[verifier::external_type_specification]
pub struct ExBitmapFormat(skrifa::bitmap::BitmapFormat);

/// What the image of a bitmap glyph holds.
pub enum StrikeData {
    Bgra(Seq<u8>),
    Png(Seq<u8>),
    Mask(MaskView),
}

/// What `data` holds.
pub open spec fn strike_data(data: BitmapData) -> StrikeData {
    match data {
        BitmapData::Bgra(bytes) => StrikeData::Bgra(bytes@),
        BitmapData::Png(bytes) => StrikeData::Png(bytes@),
        BitmapData::Mask(mask) => StrikeData::Mask(mask_view(mask)),
    }
}

/// A bitmap glyph of one strike.
pub struct Strike<'a> {
    /// The image.
    pub data: BitmapData<'a>,
    /// Distance in pixels from the origin to the image, to the right.
    pub inner_bearing_x: i16,
    /// Distance in pixels from the origin to the image, upwards.
    pub inner_bearing_y: i16,
    /// The pixels per em that the strike was drawn for, horizontally.
    pub ppem_x: u16,
    /// The pixels per em that the strike was drawn for, vertically.
    pub ppem_y: u16,
    /// The advance width in pixels, if the strike gives one.
    pub advance: Option<u16>,
    /// The number of columns of the image.
    pub width: u32,
    /// The number of rows of the image.
    pub height: u32,
}

/// What a bitmap glyph of one strike holds.
pub struct StrikeView {
    pub data: StrikeData,
    pub inner_bearing_x: i16,
    pub inner_bearing_y: i16,
    pub ppem_x: u16,
    pub ppem_y: u16,
    pub advance: Option<u16>,
    pub width: u32,
    pub height: u32,
}

impl<'a> View for Strike<'a> {
    type V = StrikeView;

    open spec fn view(&self) -> StrikeView {
        StrikeView {
            data: strike_data(self.data),
            inner_bearing_x: self.inner_bearing_x,
            inner_bearing_y: self.inner_bearing_y,
            ppem_x: self.ppem_x,
            ppem_y: self.ppem_y,
            advance: self.advance,
            width: self.width,
            height: self.height,
        }
    }
}

impl StrikeView {
    /// Whether the image is a mask.
    pub open spec fn is_mask(self) -> bool {
        self.data is Mask
    }

    /// What the tables can express. `sbix` holds PNG images only, without an
    /// advance. The other tables always give an advance, and their sizes and
    /// dimensions are bytes, as is the advance. Their color bitmaps are complete.
    pub open spec fn fits_its_table(self, format: Option<BitmapFormat>) -> bool {
        if format == Some(BitmapFormat::Sbix) {
            &&& self.data is Png
            &&& self.advance is None
        } else {
            &&& self.data matches StrikeData::Mask(mask) ==> mask.has_valid_depth()
            &&& self.data matches StrikeData::Bgra(bytes) ==> bytes.len() == self.width * self.height
                * 4
            &&& self.advance matches Some(advance) && advance <= 255
            &&& self.ppem_x <= 255
            &&& self.ppem_y <= 255
            &&& self.width <= 255
            &&& self.height <= 255
        }
    }
}

/// Names the table that skrifa takes the strikes of a face from.
pub uninterp spec fn strike_format_of(data: Seq<u8>, index: u32) -> Option<BitmapFormat>;

/// Names the bitmap glyph that skrifa picks from the face at `index` of the
/// font file `data`, for a size in pixels per em, or for the largest size when
/// there is none.
pub uninterp spec fn strike_for_size(data: Seq<u8>, index: u32, ppem: Option<u16>, glyph: u32) -> Option<
    StrikeView,
>;

/// `BitmapStrikes::glyph_for_size` of skrifa: the best strike of a glyph for a
/// size. `None` when the face cannot be read or has no bitmap for the glyph.
/// A strike of the exact size is best, so the size that a strike was drawn for
/// is served by such a strike.
///
/// Sizes, bearings and advances are integers in the tables, and small enough to
/// survive the trip through a single precision number unchanged.
#[verifier::external_body]
pub(crate) fn glyph_for_size<'a>(
    data: &'a [u8],
    index: u32,
    ppem: Option<u16>,
    glyph: GlyphId,
) -> (res: Option<Strike<'a>>)
    ensures
        match res {
            Some(strike) => strike_for_size(data@, index, ppem, glyph.0) == Some(strike@),
            None => strike_for_size(data@, index, ppem, glyph.0) is None,
        },
        res matches Some(strike) ==> strike@.fits_its_table(strike_format_of(data@, index)),
        res matches Some(strike) ==> (strike_for_size(
            data@,
            index,
            Some(strike@.ppem_y),
            glyph.0,
        ) matches Some(own) && own.ppem_y == strike@.ppem_y),
{
    let unscaled = skrifa::prelude::Size::unscaled();
    let size = ppem.map_or(unscaled, |px| skrifa::prelude::Size::new(px.into()));
    let font = skrifa::FontRef::from_index(data, index).ok()?;
    let found = font.bitmap_strikes().glyph_for_size(size, glyph.0.into())?;
    Some(Strike {
        data: found.data,
        inner_bearing_x: found.inner_bearing_x as i16,
        inner_bearing_y: found.inner_bearing_y as i16,
        ppem_x: found.ppem_x as u16,
        ppem_y: found.ppem_y as u16,
        advance: found.advance.map(|advance| advance as u16),
        width: found.width,
        height: found.height,
    })
}

/// `BitmapStrikes::format` of skrifa: the table that the strikes come from.
/// `None` when the face cannot be read or has no strikes.
#[verifier::external_body]
pub(crate) fn strike_format(data: &[u8], index: u32) -> (res: Option<BitmapFormat>)
    ensures
        res == strike_format_of(data@, index),
{
    skrifa::FontRef::from_index(data, index).ok()?.bitmap_strikes().format()
}

/// Names whether skrifa finds an outline for a glyph of a face.
pub uninterp spec fn has_outline(data: Seq<u8>, index: u32, glyph: u32) -> bool;

/// `OutlineGlyphCollection::get` of skrifa: whether the face has an outline for
/// a glyph. It has none when it cannot be read.
#[verifier::external_body]
pub(crate) fn find_outline(data: &[u8], index: u32, glyph: GlyphId) -> (res: bool)
    ensures
        res == has_outline(data@, index, glyph.0),
{
    let font = skrifa::FontRef::from_index(data, index);
    font.is_ok_and(|font| font.outline_glyphs().get(glyph.0.into()).is_some())
}

/// The bounding box of a glyph, in font units.
#[derive(Clone, Copy, PartialEq, Eq, Debug, Structural)]
pub struct BoundingBox {
    pub x_min: i16,
    pub y_min: i16,
    pub x_max: i16,
    pub y_max: i16,
}

/// Names whether skrifa finds a table with a tag in a face.
pub uninterp spec fn has_table(data: Seq<u8>, index: u32, tag: Seq<u8>) -> bool;

/// `FontRef::table_data` of skrifa: whether the face has a table with this tag.
/// It has none when it cannot be read.
#[verifier::external_body]
fn find_table(data: &[u8], index: u32, tag: [u8; 4]) -> (res: bool)
    ensures
        res == has_table(data@, index, tag@),
{
    let font = skrifa::FontRef::from_index(data, index);
    font.is_ok_and(|font| font.table_data(skrifa::Tag::new(&tag)).is_some())
}

/// The tag of the table that composes outlines out of others.
pub const VARC: [u8; 4] = [0x56, 0x41, 0x52, 0x43];

/// Whether the outlines of a face are composed out of others.
pub open spec fn is_composed(data: Seq<u8>, index: u32) -> bool {
    has_table(data, index, VARC@)
}

/// Whether the outlines of a face are composed out of others, so that the bounds
/// of its glyphs are not exact: see [`is_bounds`].
pub fn has_composed_outlines(data: &[u8], index: u32) -> (res: bool)
    ensures
        res == is_composed(data@, index),
{
    find_table(data, index, VARC)
}

/// Names the bounding box that skrifa computes for a glyph of a face at the
/// default position of every variation axis, truncated and clamped to 16 bits.
pub uninterp spec fn bounds_of(data: Seq<u8>, index: u32, glyph: u32) -> Option<BoundingBox>;

/// Whether this can be the bounding box of a glyph. Outlines that are composed
/// out of others can be turned, by a sine that is not the same on every machine,
/// so nothing is said of their bounds.
pub open spec fn is_bounds(
    data: Seq<u8>,
    index: u32,
    glyph: u32,
    bbox: Option<BoundingBox>,
) -> bool {
    is_composed(data, index) || bbox == bounds_of(data, index, glyph)
}

/// `GlyphMetrics::bounds` of skrifa: the bounding box of a glyph in font units,
/// at the default position of every variation axis. `None` when the face cannot
/// be read or has no outline to bound.
///
/// The bounds of a composed outline are left unsaid: see [`is_bounds`].
#[verifier::external_body]
pub(crate) fn glyph_bounds(data: &[u8], index: u32, glyph: GlyphId) -> (res: Option<BoundingBox>)
    ensures
        !is_composed(data@, index) ==> res == bounds_of(data@, index, glyph.0),
{
    let font = skrifa::FontRef::from_index(data, index).ok()?;
    let location = skrifa::prelude::LocationRef::default();
    let metrics = font.glyph_metrics(skrifa::prelude::Size::unscaled(), location);
    metrics.bounds(glyph.0.into()).map(|bbox| BoundingBox {
        x_min: bbox.x_min as i16,
        y_min: bbox.y_min as i16,
        x_max: bbox.x_max as i16,
        y_max: bbox.y_max as i16,
    })
}

/// Names whether skrifa finds a variation axis with a tag in a face.
pub uninterp spec fn has_axis(data: Seq<u8>, index: u32, tag: Seq<u8>) -> bool;

/// `AxisCollection::get_by_tag` of skrifa: whether the face has a variation
/// axis with this tag. It has none when it cannot be read.
#[verifier::external_body]
pub(crate) fn find_axis(data: &[u8], index: u32, tag: [u8; 4]) -> (res: bool)
    ensures
        res == has_axis(data@, index, tag@),
{
    let font = skrifa::FontRef::from_index(data, index);
    font.is_ok_and(|font| font.axes().get_by_tag(skrifa::Tag::new(&tag)).is_some())
}

/// Names the number of font units per em that a face gives.
pub uninterp spec fn units_per_em_of(data: Seq<u8>, index: u32) -> Option<u16>;

/// `Head::units_per_em` of skrifa: the number of font units per em. `None` when
/// the face cannot be read or has no `head` table.
#[verifier::external_body]
pub(crate) fn units_per_em(data: &[u8], index: u32) -> (res: Option<u16>)
    ensures
        res == units_per_em_of(data@, index),
{
    let font = skrifa::FontRef::from_index(data, index).ok()?;
    font.head().ok().map(|head| head.units_per_em())
}

/// Names whether skrifa finds a color glyph for a glyph of a face.
pub uninterp spec fn has_color_glyph(data: Seq<u8>, index: u32, glyph: u32) -> bool;

/// `ColorGlyphCollection::get` of skrifa: whether the face has a `COLR`
/// description of a glyph. It has none when it cannot be read.
#[verifier::external_body]
pub(crate) fn find_color_glyph(data: &[u8], index: u32, glyph: GlyphId) -> (res: bool)
    ensures
        res == has_color_glyph(data@, index, glyph.0),
{
    let font = skrifa::FontRef::from_index(data, index);
    font.is_ok_and(|font| font.color_glyphs().get(glyph.0.into()).is_some())
}

/// What a strike is said to hold is what it holds.
pub proof fn law_strike_view_is_faithful(strike: Strike)
    ensures
        strike@.inner_bearing_x == strike.inner_bearing_x,
        strike@.inner_bearing_y == strike.inner_bearing_y,
        strike@.ppem_x == strike.ppem_x,
        strike@.ppem_y == strike.ppem_y,
        strike@.advance == strike.advance,
        strike@.width == strike.width,
        strike@.height == strike.height,
        match strike.data {
            BitmapData::Bgra(bytes) => strike@.data == StrikeData::Bgra(bytes@),
            BitmapData::Png(bytes) => strike@.data == StrikeData::Png(bytes@),
            BitmapData::Mask(mask) => strike@.data matches StrikeData::Mask(view) && view.bpp
                == mask.bpp && view.is_packed == mask.is_packed && view.data == mask.data@,
        },
        strike@.is_mask() <==> strike.data is Mask,
{
}

/// The bounding box of a glyph is open only in a face with a `VARC` table.
pub proof fn law_bounds_are_known_without_composed_outlines(
    data: Seq<u8>,
    index: u32,
    glyph: u32,
    bbox: Option<BoundingBox>,
)
    ensures
        is_composed(data, index) <==> has_table(data, index, seq![0x56u8, 0x41, 0x52, 0x43]),
        !is_composed(data, index) ==> (is_bounds(data, index, glyph, bbox) <==> bbox == bounds_of(
            data,
            index,
            glyph,
        )),
{
    assert(VARC@ =~= seq![0x56u8, 0x41, 0x52, 0x43]);
}

} // verus!
