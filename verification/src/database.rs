//! Glyphs of the faces of a font database.

use fontdb::{Database, ID};
use tiny_skia_path::{PathBuilder, Transform};
use vstd::prelude::*;

use crate::colr::{colr_in_face, ColrDocument};
use crate::face::{
    face_bytes, face_indices, find_axis, find_outline, has_axis, has_color_glyph, has_outline,
    units_per_em, units_per_em_of,
};
use crate::hinting::GlyphHinting;
use crate::path::{builder_outline, have_bounds, mapped_points, outline_view, placed, Outline};
use crate::svg::{svg_in_face, svg_of, svg_view, SvgGlyph};
use crate::tree::{GlyphId, OPSZ};

verus! {

/// How an outline is to be drawn.
#[derive(Clone, Copy, PartialEq, Eq, Debug, Structural)]
pub enum OutlinePlan {
    /// In font units, without hinting.
    Unscaled,
    /// Fitted to the pixel grid of `hinting`. It has to be drawn at the size it
    /// is fitted for, which yields pixels rather than font units.
    Fitted { hinting: GlyphHinting, units_per_em: u16 },
}

/// How the outline of a glyph of a face is to be drawn, if there is one. What
/// is fitted cannot be scaled back to font units unless the face says how many
/// of them there are.
pub open spec fn plan_of(
    data: Seq<u8>,
    index: u32,
    glyph: u32,
    hinting: Option<GlyphHinting>,
) -> Option<OutlinePlan> {
    if !has_outline(data, index, glyph) {
        None
    } else {
        match hinting {
            None => Some(OutlinePlan::Unscaled),
            Some(hinting) => match units_per_em_of(data, index) {
                Some(units_per_em) => Some(OutlinePlan::Fitted { hinting, units_per_em }),
                None => None,
            },
        }
    }
}

/// Decides how the outline of a glyph of the face at `index` of the font file
/// `data` is to be drawn.
pub fn outline_in_face(
    data: &[u8],
    index: u32,
    glyph: GlyphId,
    hinting: Option<GlyphHinting>,
) -> (res: Option<OutlinePlan>)
    ensures
        res == plan_of(data@, index, glyph.0, hinting),
{
    if !find_outline(data, index, glyph) {
        return None;
    }
    match hinting {
        None => Some(OutlinePlan::Unscaled),
        Some(hinting) => {
            let units_per_em: u16 = units_per_em(data, index)?;
            Some(OutlinePlan::Fitted { hinting, units_per_em })
        },
    }
}

/// What is left of an outline that was drawn, once it is scaled back to font
/// units.
pub open spec fn finished(drawn: Outline, rescale: Option<Transform>) -> Option<Outline> {
    if !drawn.is_drawable() {
        None
    } else {
        match rescale {
            None => Some(drawn),
            Some(transform) => placed(Some(drawn), transform),
        }
    }
}

/// Finishes an outline that was drawn. One that was fitted to a pixel grid is
/// scaled back to font units, so that the glyph transform, which undoes this
/// again, applies to hinted and unhinted glyphs alike.
pub fn finish_outline(builder: PathBuilder, rescale: Option<Transform>) -> (res: Option<
    tiny_skia_path::Path,
>)
    ensures
        outline_view(res) == finished(builder_outline(builder), rescale),
{
    let drawn: tiny_skia_path::Path = builder.finish()?;
    match rescale {
        None => Some(drawn),
        Some(transform) => drawn.transform(transform),
    }
}

/// Whether the face at `index` of the font file `data` has an optical size axis.
pub fn has_opsz_axis_in_face(data: &[u8], index: u32) -> (res: bool)
    ensures
        res == has_axis(data@, index, OPSZ@),
{
    find_axis(data, index, OPSZ)
}

/// What the faces of a database say about their glyphs.
pub trait DatabaseExt {
    /// How the outline of a glyph is to be drawn, if there is one.
    fn outline(&self, id: ID, glyph_id: GlyphId, hinting: Option<GlyphHinting>) -> Option<
        OutlinePlan,
    >;

    /// Whether a face has an optical size axis.
    fn has_opsz_axis(&self, id: ID) -> bool;

    /// The SVG document of a glyph, if there is one.
    fn svg(&self, id: ID, glyph_id: GlyphId) -> Option<SvgGlyph>;

    /// A document to paint the `COLR` description of a glyph into, if there is
    /// one.
    fn colr(&self, id: ID, glyph_id: GlyphId) -> Option<ColrDocument>;
}

impl DatabaseExt for Database {
    fn outline(&self, id: ID, glyph_id: GlyphId, hinting: Option<GlyphHinting>) -> (res: Option<
        OutlinePlan,
    >)
        ensures
            res is Some ==> face_indices(*self).dom().contains(id),
            res is Some ==> exists|data: Seq<u8>| #[trigger]
                plan_of(data, face_indices(*self)[id], glyph_id.0, hinting) == res,
            face_bytes(*self).dom().contains(id) ==> res == plan_of(
                face_bytes(*self)[id],
                face_indices(*self)[id],
                glyph_id.0,
                hinting,
            ),
    {
        let in_face = |data: &[u8], index: u32| -> (plan: Option<OutlinePlan>)
            ensures plan == plan_of(data@, index, glyph_id.0, hinting)
        { outline_in_face(data, index, glyph_id, hinting) };
        self.with_face_data(id, in_face)?
    }

    fn has_opsz_axis(&self, id: ID) -> (res: bool)
        ensures
            res ==> face_indices(*self).dom().contains(id),
            res ==> exists|data: Seq<u8>| #[trigger]
                has_axis(data, face_indices(*self)[id], OPSZ@),
            face_bytes(*self).dom().contains(id) ==> res == has_axis(
                face_bytes(*self)[id],
                face_indices(*self)[id],
                OPSZ@,
            ),
    {
        let in_face = |data: &[u8], index: u32| -> (found: bool)
            ensures found == has_axis(data@, index, OPSZ@)
        { has_opsz_axis_in_face(data, index) };
        match self.with_face_data(id, in_face) {
            Some(found) => found,
            None => false,
        }
    }

    fn svg(&self, id: ID, glyph_id: GlyphId) -> (res: Option<SvgGlyph>)
        ensures
            res is Some ==> face_indices(*self).dom().contains(id),
            res matches Some(glyph) ==> exists|data: Seq<u8>| #[trigger]
                svg_of(data, face_indices(*self)[id], glyph_id.0) == Some(glyph@),
            face_bytes(*self).dom().contains(id) ==> svg_view(res) == svg_of(
                face_bytes(*self)[id],
                face_indices(*self)[id],
                glyph_id.0,
            ),
    {
        let in_face = |data: &[u8], index: u32| -> (glyph: Option<SvgGlyph>)
            ensures svg_view(glyph) == svg_of(data@, index, glyph_id.0)
        { svg_in_face(data, index, glyph_id) };
        self.with_face_data(id, in_face)?
    }

    fn colr(&self, id: ID, glyph_id: GlyphId) -> (res: Option<ColrDocument>)
        ensures
            res is Some ==> face_indices(*self).dom().contains(id),
            res matches Some(document) ==> document.is_fresh() && exists|data: Seq<u8>| #[trigger]
                has_color_glyph(data, face_indices(*self)[id], glyph_id.0),
            face_bytes(*self).dom().contains(id) ==> (res is Some <==> has_color_glyph(
                face_bytes(*self)[id],
                face_indices(*self)[id],
                glyph_id.0,
            )),
    {
        let in_face = |data: &[u8], index: u32| -> (document: Option<ColrDocument>)
            ensures
                document is Some <==> has_color_glyph(data@, index, glyph_id.0),
                document matches Some(document) ==> document.is_fresh()
        { colr_in_face(data, index, glyph_id) };
        self.with_face_data(id, in_face)?
    }
}

/// What is fitted carries the hinting that was asked for, and exactly the units
/// per em that the face gives, so that it can be scaled back to them.
pub proof fn law_fitted_outline_is_scaled_back_to_its_face(
    data: Seq<u8>,
    index: u32,
    glyph: u32,
    hinting: Option<GlyphHinting>,
    fitted: GlyphHinting,
    units_per_em: u16,
)
    ensures
        plan_of(data, index, glyph, hinting) == Some(
            OutlinePlan::Fitted { hinting: fitted, units_per_em },
        ) <==> {
            &&& has_outline(data, index, glyph)
            &&& hinting == Some(fitted)
            &&& units_per_em_of(data, index) == Some(units_per_em)
        },
{
}

/// A glyph is drawn in font units exactly if it has an outline and no hinting is
/// asked for. There is nothing to draw without an outline, nor where hinting is
/// asked for in a face that does not give its units per em.
pub proof fn law_outline_is_drawn_if_there_is_one(
    data: Seq<u8>,
    index: u32,
    glyph: u32,
    hinting: Option<GlyphHinting>,
)
    ensures
        plan_of(data, index, glyph, hinting) == Some(OutlinePlan::Unscaled) <==> has_outline(
            data,
            index,
            glyph,
        ) && hinting is None,
        plan_of(data, index, glyph, hinting) is None <==> !has_outline(data, index, glyph) || (
        hinting is Some && units_per_em_of(data, index) is None),
{
}

/// An outline that was drawn keeps its segments. Its points stay where they are,
/// unless it is scaled, which moves all of them alike. A lone segment is no
/// outline, and neither is what has no bounds.
pub proof fn law_finishing_keeps_the_segments(drawn: Outline, transform: Transform)
    ensures
        ({
            let makes_a_path = drawn.verbs.len() >= 2 && have_bounds(drawn.points);
            let moved = mapped_points(drawn.points, transform);
            &&& finished(drawn, None) is Some <==> makes_a_path
            &&& finished(drawn, None) matches Some(outline) ==> outline == drawn
            &&& finished(drawn, Some(transform)) is Some <==> makes_a_path && moved is Some
            &&& finished(drawn, Some(transform)) matches Some(outline) ==> outline.verbs
                == drawn.verbs && moved == Some(outline.points)
        }),
{
}

} // verus!
