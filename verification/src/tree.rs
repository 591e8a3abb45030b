//! The parts of a document tree that flattened text is made of.

use std::sync::Arc;

use fontdb::ID;
use tiny_skia_path::Transform;
use vstd::prelude::*;

use crate::path::{path_points, path_verbs, Outline};

verus! {

/// A glyph of a font face.
#[derive(Clone, Copy, PartialEq, Eq, Hash, Debug, Structural)]
pub struct GlyphId(pub u32);

/// An RGB color.
#[derive(Clone, Copy, PartialEq, Eq, Hash, Debug, Structural)]
pub struct Color {
    pub red: u8,
    pub green: u8,
    pub blue: u8,
}

impl Color {
    /// A color from its components.
    pub fn new_rgb(red: u8, green: u8, blue: u8) -> (res: Color)
        ensures
            res == (Color { red, green, blue }),
    {
        Color { red, green, blue }
    }

    /// The color that an absent or inexpressible paint resolves to.
    pub fn black() -> (res: Color)
        ensures
            res == (Color { red: 0, green: 0, blue: 0 }),
    {
        Color { red: 0, green: 0, blue: 0 }
    }
}

/// The `text-rendering` of a text element.
#[derive(Clone, Copy, PartialEq, Eq, Debug, Structural)]
pub enum TextRendering {
    OptimizeSpeed,
    OptimizeLegibility,
    GeometricPrecision,
}

/// The `shape-rendering` of a path.
#[derive(Clone, Copy, PartialEq, Eq, Debug, Structural)]
pub enum ShapeRendering {
    OptimizeSpeed,
    CrispEdges,
    GeometricPrecision,
}

/// The `image-rendering` of an image.
#[derive(Clone, Copy, PartialEq, Eq, Debug, Structural)]
pub enum ImageRendering {
    OptimizeQuality,
    OptimizeSpeed,
    Smooth,
    HighQuality,
    CrispEdges,
    Pixelated,
}

/// The `font-optical-sizing` of a text span.
#[derive(Clone, Copy, PartialEq, Eq, Debug, Structural)]
pub enum FontOpticalSizing {
    /// The optical size follows the font size.
    Auto,
    /// The optical size stays as the font has it (`none`).
    Off,
}

/// The tag of the optical size axis.
pub const OPSZ: [u8; 4] = [0x6f, 0x70, 0x73, 0x7a];

/// The value of one variation axis.
#[derive(Clone, Copy, PartialEq, Eq, Debug)]
pub struct FontVariation {
    /// The tag of the axis.
    pub tag: [u8; 4],
    /// The value, as the bits of a single precision number.
    pub value: u32,
}

impl FontVariation {
    pub fn new(tag: [u8; 4], value: u32) -> (res: FontVariation)
        ensures
            res.tag == tag,
            res.value == value,
    {
        FontVariation { tag, value }
    }

    /// Whether this sets the optical size axis.
    pub open spec fn sets_opsz(self) -> bool {
        self.tag@ == OPSZ@
    }

    pub(crate) fn is_opsz(&self) -> (res: bool)
        ensures
            res == self.sets_opsz(),
    {
        let res: bool = self.tag[0] == OPSZ[0] && self.tag[1] == OPSZ[1] && self.tag[2] == OPSZ[2]
            && self.tag[3] == OPSZ[3];
        proof {
            if res {
                assert(self.tag@ =~= OPSZ@);
            }
        }
        res
    }
}

/// The size of an image, in pixels.
#[derive(Clone, Copy, PartialEq, Eq, Debug, Structural)]
pub struct Size {
    pub width: u32,
    pub height: u32,
}

impl Size {
    /// A size from its width and height, neither of which may be zero.
    pub fn from_wh(width: u32, height: u32) -> (res: Option<Size>)
        ensures
            res == size_from_wh(width, height),
    {
        if width > 0 && height > 0 {
            Some(Size { width, height })
        } else {
            None
        }
    }
}

/// What [`Size::from_wh`] returns.
pub open spec fn size_from_wh(width: u32, height: u32) -> Option<Size> {
    if width > 0 && height > 0 {
        Some(Size { width, height })
    } else {
        None
    }
}

/// An embedded PNG image without an id. Untransformed, it covers the rectangle
/// from the origin to its size.
#[derive(Clone, Debug)]
pub struct Image {
    pub visible: bool,
    pub size: Size,
    pub rendering_mode: ImageRendering,
    /// The encoded image.
    pub png: Vec<u8>,
}

/// What an [`Image`] holds.
pub struct ImageView {
    pub visible: bool,
    pub size: Size,
    pub rendering_mode: ImageRendering,
    pub png: Seq<u8>,
}

impl View for Image {
    type V = ImageView;

    open spec fn view(&self) -> ImageView {
        ImageView {
            visible: self.visible,
            size: self.size,
            rendering_mode: self.rendering_mode,
            png: self.png@,
        }
    }
}

/// The rule that decides what is inside of a path.
#[derive(Clone, Copy, PartialEq, Eq, Debug, Structural)]
pub enum FillRule {
    NonZero,
    EvenOdd,
}

/// What a shape is painted with. A paint server is given by its place in the
/// table of the caller.
#[derive(Clone, Copy, PartialEq, Eq, Debug, Structural)]
pub enum Paint {
    Color(Color),
    LinearGradient(usize),
    RadialGradient(usize),
    Pattern(usize),
}

/// How a shape is filled.
#[derive(Clone, Copy, PartialEq, Eq, Debug, Structural)]
pub struct Fill {
    pub paint: Paint,
    /// The opacity, as the bits of a single precision number.
    pub opacity: u32,
    /// The opacity scaled to a byte and rounded.
    pub opacity_byte: u8,
    pub rule: FillRule,
}

/// How a shape is stroked, by its place in the table of the caller.
#[derive(Clone, Copy, PartialEq, Eq, Debug, Structural)]
pub struct Stroke(pub usize);

/// Which of fill and stroke is painted first.
#[derive(Clone, Copy, PartialEq, Eq, Debug, Structural)]
pub enum PaintOrder {
    FillAndStroke,
    StrokeAndFill,
}

/// A path without an id.
#[derive(Debug)]
pub struct PathNode {
    pub visible: bool,
    pub fill: Option<Fill>,
    pub stroke: Option<Stroke>,
    pub paint_order: PaintOrder,
    pub rendering_mode: ShapeRendering,
    pub data: Arc<tiny_skia_path::Path>,
    pub abs_transform: Transform,
}

/// What a [`PathNode`] holds.
pub struct PathNodeView {
    pub visible: bool,
    pub fill: Option<Fill>,
    pub stroke: Option<Stroke>,
    pub paint_order: PaintOrder,
    pub rendering_mode: ShapeRendering,
    pub outline: Outline,
    pub abs_transform: Transform,
}

impl View for PathNode {
    type V = PathNodeView;

    open spec fn view(&self) -> PathNodeView {
        PathNodeView {
            visible: self.visible,
            fill: self.fill,
            stroke: self.stroke,
            paint_order: self.paint_order,
            rendering_mode: self.rendering_mode,
            outline: Outline { verbs: path_verbs(*self.data), points: path_points(*self.data) },
            abs_transform: self.abs_transform,
        }
    }
}

impl PathNode {
    /// The same path, rendered in another way.
    pub fn with_rendering_mode(&self, rendering_mode: ShapeRendering) -> (res: PathNode)
        ensures
            res@ == (PathNodeView { rendering_mode, ..self@ }),
    {
        PathNode {
            visible: self.visible,
            fill: self.fill,
            stroke: self.stroke,
            paint_order: self.paint_order,
            rendering_mode,
            data: self.data.clone(),
            abs_transform: self.abs_transform,
        }
    }
}

/// A glyph at its place in a line.
#[derive(Debug)]
pub struct PositionedGlyph {
    /// The face that supplied the glyph, which fallback may have changed.
    pub font: ID,
    pub id: GlyphId,
    /// The font size, as the bits of a single precision number.
    pub font_size: u32,
    /// Takes an outline in font units to its place.
    pub outline_transform: Transform,
}

/// A run of glyphs with one style.
#[derive(Debug)]
pub struct Span {
    pub visible: bool,
    pub fill: Option<Fill>,
    pub stroke: Option<Stroke>,
    pub paint_order: PaintOrder,
    pub font_optical_sizing: FontOpticalSizing,
    /// The variations that the style asks for.
    pub variations: Vec<FontVariation>,
    pub overline: Option<PathNode>,
    pub underline: Option<PathNode>,
    pub line_through: Option<PathNode>,
    pub positioned_glyphs: Vec<PositionedGlyph>,
}

/// A text element that was laid out.
#[derive(Debug)]
pub struct Text {
    pub id: String,
    pub rendering_mode: TextRendering,
    pub abs_transform: Transform,
    pub layouted: Vec<Span>,
}

/// What nodes are said to hold is what they hold.
pub proof fn law_node_views_are_faithful(path: PathNode, image: Image)
    ensures
        path@.visible == path.visible,
        path@.fill == path.fill,
        path@.stroke == path.stroke,
        path@.paint_order == path.paint_order,
        path@.rendering_mode == path.rendering_mode,
        path@.outline.verbs == path_verbs(*path.data),
        path@.outline.points == path_points(*path.data),
        path@.abs_transform == path.abs_transform,
        image@.visible == image.visible,
        image@.size == image.size,
        image@.rendering_mode == image.rendering_mode,
        image@.png == image.png@,
{
}

/// There is a size for every width and height but zero, and it holds both.
pub proof fn law_size_holds_both_extents(width: u32, height: u32)
    ensures
        size_from_wh(width, height) is Some <==> width != 0 && height != 0,
        size_from_wh(width, height) matches Some(size) ==> size.width == width && size.height
            == height,
{
}

/// The optical size axis is the one with the tag `opsz`.
pub proof fn law_optical_size_axis_is_opsz(variation: FontVariation)
    ensures
        variation.sets_opsz() <==> variation.tag@ == seq![0x6fu8, 0x70, 0x73, 0x7a],
        OPSZ@ == seq![0x6fu8, 0x70, 0x73, 0x7a],
{
    assert(OPSZ@ =~= seq![0x6fu8, 0x70, 0x73, 0x7a]);
}

} // verus!
