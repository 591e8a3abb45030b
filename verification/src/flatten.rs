//! Flattening of text into the nodes that it is drawn from.

use std::sync::Arc;

use fontdb::{Database, ID};
use tiny_skia_path::{PathBuilder, Transform};
use vstd::prelude::*;

use crate::bitmap::{BitmapGlyphKey, BitmapImage, BitmapImageView};
use crate::hinting::{FontHintingOptions, GlyphHinting};
use crate::path::{builder_outline, Outline};
use crate::resolve::{
    are_total, resolve_glyph, resolves_to, GlyphContent, GlyphContentView, GlyphSources,
};
use crate::tree::{
    FontVariation, GlyphId, Image, ImageView, PathNode, PathNodeView, ShapeRendering, Span, Text,
    TextRendering,
};

verus! {

/// How the paths of a text element are rendered.
pub open spec fn rendering_mode_of(text: Text) -> ShapeRendering {
    if text.rendering_mode == TextRendering::OptimizeSpeed {
        ShapeRendering::CrispEdges
    } else {
        ShapeRendering::GeometricPrecision
    }
}

/// How the paths of a text element are rendered.
pub fn resolve_rendering_mode(text: &Text) -> (res: ShapeRendering)
    ensures
        res == rendering_mode_of(*text),
{
    match text.rendering_mode {
        TextRendering::OptimizeSpeed => ShapeRendering::CrispEdges,
        TextRendering::OptimizeLegibility => ShapeRendering::GeometricPrecision,
        TextRendering::GeometricPrecision => ShapeRendering::GeometricPrecision,
    }
}

/// The transformation that takes what a glyph is drawn from to its place. All
/// of them follow from the position of the glyph and the numbers given here.
#[derive(Clone, Copy, PartialEq, Eq, Debug, Structural)]
pub enum GlyphTransform {
    /// That of a `COLR` paint.
    Colr,
    /// That of an SVG document.
    Svg,
    /// That of a bitmap of an `sbix` table.
    Sbix {
        x: i16,
        y: i16,
        x_min: i16,
        y_min: i16,
        pixels_per_em: u16,
        height: u32,
    },
    /// That of a bitmap of any other table.
    Cbdt { x: i16, y: i16, pixels_per_em: u16 },
}

/// What takes a bitmap to its place.
pub open spec fn bitmap_transform_of(image: BitmapImageView) -> GlyphTransform {
    if image.is_sbix {
        GlyphTransform::Sbix {
            x: image.x,
            y: image.y,
            x_min: match image.glyph_bbox {
                Some(bbox) => bbox.x_min,
                None => 0,
            },
            y_min: match image.glyph_bbox {
                Some(bbox) => bbox.y_min,
                None => 0,
            },
            pixels_per_em: image.pixels_per_em,
            height: image.image.size.height,
        }
    } else {
        GlyphTransform::Cbdt { x: image.x, y: image.y, pixels_per_em: image.pixels_per_em }
    }
}

/// What takes a bitmap to its place.
pub fn bitmap_transform(image: &BitmapImage) -> (res: GlyphTransform)
    ensures
        res == bitmap_transform_of(image@),
{
    if image.is_sbix {
        let (x_min, y_min): (i16, i16) = match image.glyph_bbox {
            Some(bbox) => (bbox.x_min, bbox.y_min),
            None => (0, 0),
        };
        GlyphTransform::Sbix {
            x: image.x,
            y: image.y,
            x_min,
            y_min,
            pixels_per_em: image.pixels_per_em,
            height: image.image.size.height,
        }
    } else {
        GlyphTransform::Cbdt { x: image.x, y: image.y, pixels_per_em: image.pixels_per_em }
    }
}

/// What a group around a glyph contains.
pub enum Child<G> {
    /// The root of a tree, from a `COLR` paint.
    Tree(G),
    /// A node of an SVG document.
    Node(G),
    Image(Image),
}

/// What a [`Child`] holds.
pub enum ChildView<G> {
    Tree(G),
    Node(G),
    Image(ImageView),
}

impl<G> View for Child<G> {
    type V = ChildView<G>;

    open spec fn view(&self) -> ChildView<G> {
        match self {
            Child::Tree(root) => ChildView::Tree(*root),
            Child::Node(node) => ChildView::Node(*node),
            Child::Image(image) => ChildView::Image(image@),
        }
    }
}

/// A group around a glyph, which takes it to its place.
pub struct Group<G> {
    /// The span that the glyph is in.
    pub span: usize,
    /// The place of the glyph in its span.
    pub glyph: usize,
    pub transform: GlyphTransform,
    pub child: Child<G>,
}

/// What a [`Group`] holds.
pub struct GroupView<G> {
    pub span: int,
    pub glyph: int,
    pub transform: GlyphTransform,
    pub child: ChildView<G>,
}

impl<G> View for Group<G> {
    type V = GroupView<G>;

    open spec fn view(&self) -> GroupView<G> {
        GroupView {
            span: self.span as int,
            glyph: self.glyph as int,
            transform: self.transform,
            child: self.child@,
        }
    }
}

/// A node of flattened text.
pub enum Node<G> {
    Path(PathNode),
    Group(Group<G>),
}

/// What a [`Node`] holds.
pub enum NodeView<G> {
    Path(PathNodeView),
    Group(GroupView<G>),
}

impl<G> View for Node<G> {
    type V = NodeView<G>;

    open spec fn view(&self) -> NodeView<G> {
        match self {
            Node::Path(path) => NodeView::Path(path@),
            Node::Group(group) => NodeView::Group(group@),
        }
    }
}

/// What nodes hold.
pub open spec fn node_views<G>(nodes: Seq<Node<G>>) -> Seq<NodeView<G>> {
    Seq::new(nodes.len(), |i: int| nodes[i]@)
}

/// Flattened text: a group with the id of the text element.
pub struct FlattenedText<G> {
    pub id: String,
    pub children: Vec<Node<G>>,
}

/// The nodes, followed by the decoration if there is one, rendered like the
/// rest of the text.
pub open spec fn decorated<G>(
    nodes: Seq<NodeView<G>>,
    decoration: Option<PathNode>,
    rendering_mode: ShapeRendering,
) -> Seq<NodeView<G>> {
    match decoration {
        Some(path) => nodes.push(NodeView::Path(PathNodeView { rendering_mode, ..path@ })),
        None => nodes,
    }
}

/// The path that outlines of a span make.
pub open spec fn outline_path(
    span: Span,
    rendering_mode: ShapeRendering,
    abs_transform: Transform,
    outline: Outline,
) -> PathNodeView {
    PathNodeView {
        visible: span.visible,
        fill: span.fill,
        stroke: span.stroke,
        paint_order: span.paint_order,
        rendering_mode,
        outline,
        abs_transform,
    }
}

/// The nodes, followed by the path that the pending outlines make, if they make
/// one.
pub open spec fn flushed<G>(
    nodes: Seq<NodeView<G>>,
    span: Span,
    rendering_mode: ShapeRendering,
    abs_transform: Transform,
    pending: Outline,
) -> Seq<NodeView<G>> {
    if pending.is_drawable() {
        nodes.push(NodeView::Path(outline_path(span, rendering_mode, abs_transform, pending)))
    } else {
        nodes
    }
}

fn push_decoration<G>(
    decoration: &Option<PathNode>,
    new_children: &mut Vec<Node<G>>,
    rendering_mode: ShapeRendering,
)
    ensures
        node_views(final(new_children)@) == decorated(
            node_views(old(new_children)@),
            *decoration,
            rendering_mode,
        ),
{
    if let Some(path) = decoration {
        new_children.push(Node::Path(path.with_rendering_mode(rendering_mode)));
    }
    assert(node_views(new_children@) =~= decorated(
        node_views(old(new_children)@),
        *decoration,
        rendering_mode,
    ));
}

/// Turns the pending outlines into a path, and starts over.
pub fn push_outline_paths<G>(
    span: &Span,
    builder: &mut PathBuilder,
    new_children: &mut Vec<Node<G>>,
    rendering_mode: ShapeRendering,
    abs_transform: Transform,
)
    ensures
        node_views(final(new_children)@) == flushed(
            node_views(old(new_children)@),
            *span,
            rendering_mode,
            abs_transform,
            builder_outline(*old(builder)),
        ),
        builder_outline(*final(builder)) == Outline::empty(),
{
    let mut pending: PathBuilder = PathBuilder::new();
    std::mem::swap(builder, &mut pending);
    if let Some(path) = pending.finish() {
        new_children.push(
            Node::Path(
                PathNode {
                    visible: span.visible,
                    fill: span.fill,
                    stroke: span.stroke,
                    paint_order: span.paint_order,
                    rendering_mode,
                    data: Arc::new(path),
                    abs_transform,
                },
            ),
        );
    }
    assert(node_views(new_children@) =~= flushed(
        node_views(old(new_children)@),
        *span,
        rendering_mode,
        abs_transform,
        builder_outline(*old(builder)),
    ));
}

/// Nodes, and the outlines that were collected since the last path.
pub struct Run<G> {
    pub nodes: Seq<NodeView<G>>,
    pub pending: Outline,
}

/// A group around glyph `g` of span `s`.
pub open spec fn group_node<G>(
    s: int,
    g: int,
    transform: GlyphTransform,
    child: ChildView<G>,
) -> NodeView<G> {
    NodeView::Group(GroupView { span: s, glyph: g, transform, child })
}

/// A run extended by glyph `g` of span `s`.
///
/// Outlines are collected. Any other glyph is put into a group of its own, after
/// a path of what was collected before it.
pub open spec fn after_glyph<G>(
    text: Text,
    s: int,
    g: int,
    run: Run<G>,
    content: GlyphContentView<G>,
) -> Run<G> {
    let cleared = flushed(
        run.nodes,
        text.layouted@[s],
        rendering_mode_of(text),
        text.abs_transform,
        run.pending,
    );
    match content {
        GlyphContentView::Colr(root) => Run {
            nodes: cleared.push(group_node(s, g, GlyphTransform::Colr, ChildView::Tree(root))),
            pending: Outline::empty(),
        },
        GlyphContentView::Svg(node) => Run {
            nodes: cleared.push(group_node(s, g, GlyphTransform::Svg, ChildView::Node(node))),
            pending: Outline::empty(),
        },
        GlyphContentView::Bitmap(image) => Run {
            nodes: cleared.push(
                group_node(s, g, bitmap_transform_of(image), ChildView::Image(image.image)),
            ),
            pending: Outline::empty(),
        },
        GlyphContentView::Outline(Some(outline)) => Run {
            nodes: run.nodes,
            pending: run.pending.followed_by(outline),
        },
        GlyphContentView::Outline(None) => run,
    }
}

/// The run after the first `n` glyphs of span `s`, from the nodes before them.
pub open spec fn after_glyphs<G>(
    text: Text,
    s: int,
    nodes: Seq<NodeView<G>>,
    contents: Seq<GlyphContentView<G>>,
    n: nat,
) -> Run<G>
    decreases n,
{
    if n == 0 {
        Run { nodes, pending: Outline::empty() }
    } else {
        after_glyph(
            text,
            s,
            n - 1,
            after_glyphs(text, s, nodes, contents, (n - 1) as nat),
            contents[n - 1],
        )
    }
}

/// The nodes, followed by the decorations that are drawn below the glyphs of
/// span `s`.
pub open spec fn before_glyphs<G>(text: Text, s: int, nodes: Seq<NodeView<G>>) -> Seq<
    NodeView<G>,
> {
    decorated(
        decorated(nodes, text.layouted@[s].overline, rendering_mode_of(text)),
        text.layouted@[s].underline,
        rendering_mode_of(text),
    )
}

/// The nodes, followed by those of span `s`: the overline, the underline, the
/// glyphs and the line through them.
pub open spec fn after_span<G>(
    text: Text,
    s: int,
    nodes: Seq<NodeView<G>>,
    contents: Seq<GlyphContentView<G>>,
) -> Seq<NodeView<G>> {
    let run = after_glyphs(text, s, before_glyphs(text, s, nodes), contents, contents.len());
    decorated(
        flushed(
            run.nodes,
            text.layouted@[s],
            rendering_mode_of(text),
            text.abs_transform,
            run.pending,
        ),
        text.layouted@[s].line_through,
        rendering_mode_of(text),
    )
}

/// The nodes of the first `n` spans.
pub open spec fn text_nodes<G>(
    text: Text,
    contents: Seq<Seq<GlyphContentView<G>>>,
    n: nat,
) -> Seq<NodeView<G>>
    decreases n,
{
    if n == 0 {
        Seq::empty()
    } else {
        after_span(text, n - 1, text_nodes(text, contents, (n - 1) as nat), contents[n - 1])
    }
}

/// Whether the first `n` glyphs of span `s` can have these contents.
pub open spec fn are_contents<G, X, C, S, R, H, O>(
    sources: GlyphSources<X, C, S, R, H, O>,
    text: Text,
    s: int,
    hinting: Option<FontHintingOptions>,
    fontdb: &Database,
    contents: Seq<GlyphContentView<G>>,
    n: int,
) -> bool where
    X: Fn(ID) -> bool,
    C: Fn(ID, GlyphId, &Vec<FontVariation>) -> Option<G>,
    S: Fn(ID, GlyphId) -> Option<G>,
    R: Fn(BitmapGlyphKey) -> Option<BitmapImage>,
    H: Fn(ID, u32, Option<FontHintingOptions>, &Database) -> Option<FontHintingOptions>,
    O: Fn(ID, GlyphId, &Vec<FontVariation>, Option<GlyphHinting>) -> Option<tiny_skia_path::Path>,
 {
    &&& contents.len() == n
    &&& forall|g: int|
        0 <= g < n ==> resolves_to(
            sources,
            text.rendering_mode,
            text.layouted@[s],
            text.layouted@[s].positioned_glyphs@[g],
            hinting,
            fontdb,
            #[trigger] contents[g],
        )
}

/// Whether the glyphs of the first `n` spans can have these contents.
pub open spec fn are_text_contents<G, X, C, S, R, H, O>(
    sources: GlyphSources<X, C, S, R, H, O>,
    text: Text,
    hinting: Option<FontHintingOptions>,
    fontdb: &Database,
    contents: Seq<Seq<GlyphContentView<G>>>,
    n: int,
) -> bool where
    X: Fn(ID) -> bool,
    C: Fn(ID, GlyphId, &Vec<FontVariation>) -> Option<G>,
    S: Fn(ID, GlyphId) -> Option<G>,
    R: Fn(BitmapGlyphKey) -> Option<BitmapImage>,
    H: Fn(ID, u32, Option<FontHintingOptions>, &Database) -> Option<FontHintingOptions>,
    O: Fn(ID, GlyphId, &Vec<FontVariation>, Option<GlyphHinting>) -> Option<tiny_skia_path::Path>,
 {
    &&& contents.len() == n
    &&& forall|s: int|
        0 <= s < n ==> are_contents(
            sources,
            text,
            s,
            hinting,
            fontdb,
            #[trigger] contents[s],
            text.layouted@[s].positioned_glyphs@.len() as int,
        )
}

/// Extends a run by glyph `g` of span `s`.
pub fn push_glyph<G>(
    text: &Text,
    s: usize,
    g: usize,
    builder: &mut PathBuilder,
    new_children: &mut Vec<Node<G>>,
    content: GlyphContent<G>,
)
    requires
        s < text.layouted@.len(),
    ensures
        ({
            let before = Run {
                nodes: node_views(old(new_children)@),
                pending: builder_outline(*old(builder)),
            };
            let after = after_glyph(*text, s as int, g as int, before, content@);
            &&& node_views(final(new_children)@) == after.nodes
            &&& builder_outline(*final(builder)) == after.pending
        }),
{
    let span: &Span = &text.layouted[s];
    let rendering_mode: ShapeRendering = resolve_rendering_mode(text);
    match content {
        GlyphContent::Colr(root) => {
            push_outline_paths(span, builder, new_children, rendering_mode, text.abs_transform);
            let ghost cleared: Seq<NodeView<G>> = node_views(new_children@);
            new_children.push(
                Node::Group(
                    Group {
                        span: s,
                        glyph: g,
                        transform: GlyphTransform::Colr,
                        child: Child::Tree(root),
                    },
                ),
            );
            assert(node_views(new_children@) =~= cleared.push(new_children@.last()@));
        },
        GlyphContent::Svg(node) => {
            push_outline_paths(span, builder, new_children, rendering_mode, text.abs_transform);
            let ghost cleared: Seq<NodeView<G>> = node_views(new_children@);
            new_children.push(
                Node::Group(
                    Group {
                        span: s,
                        glyph: g,
                        transform: GlyphTransform::Svg,
                        child: Child::Node(node),
                    },
                ),
            );
            assert(node_views(new_children@) =~= cleared.push(new_children@.last()@));
        },
        GlyphContent::Bitmap(image) => {
            push_outline_paths(span, builder, new_children, rendering_mode, text.abs_transform);
            let ghost cleared: Seq<NodeView<G>> = node_views(new_children@);
            let transform: GlyphTransform = bitmap_transform(&image);
            new_children.push(
                Node::Group(
                    Group { span: s, glyph: g, transform, child: Child::Image(image.image) },
                ),
            );
            assert(node_views(new_children@) =~= cleared.push(new_children@.last()@));
        },
        GlyphContent::Outline(outline) => {
            if let Some(outline) = outline {
                builder.push_path(&outline);
            }
        },
    }
}

fn flatten_span<G, X, C, S, R, H, O>(
    text: &Text,
    s: usize,
    new_children: &mut Vec<Node<G>>,
    hinting: Option<FontHintingOptions>,
    fontdb: &Database,
    sources: &GlyphSources<X, C, S, R, H, O>,
) where
    X: Fn(ID) -> bool,
    C: Fn(ID, GlyphId, &Vec<FontVariation>) -> Option<G>,
    S: Fn(ID, GlyphId) -> Option<G>,
    R: Fn(BitmapGlyphKey) -> Option<BitmapImage>,
    H: Fn(ID, u32, Option<FontHintingOptions>, &Database) -> Option<FontHintingOptions>,
    O: Fn(ID, GlyphId, &Vec<FontVariation>, Option<GlyphHinting>) -> Option<tiny_skia_path::Path>,

    requires
        s < text.layouted@.len(),
        are_total(*sources),
    ensures
        exists|contents: Seq<GlyphContentView<G>>| #[trigger]
            are_contents(
                *sources,
                *text,
                s as int,
                hinting,
                fontdb,
                contents,
                text.layouted@[s as int].positioned_glyphs@.len() as int,
            ) && node_views(final(new_children)@) == after_span(
                *text,
                s as int,
                node_views(old(new_children)@),
                contents,
            ),
{
    let span: &Span = &text.layouted[s];
    let rendering_mode: ShapeRendering = resolve_rendering_mode(text);
    push_decoration(&span.overline, new_children, rendering_mode);
    push_decoration(&span.underline, new_children, rendering_mode);
    let ghost start: Seq<NodeView<G>> = node_views(new_children@);
    let ghost mut contents: Seq<GlyphContentView<G>> = Seq::empty();

    // Instead of always processing each glyph separately, we always collect
    // as many outline glyphs as possible by pushing them into the builder
    // and only if we encounter a different glyph, or we reach the very end of
    // the span, do we push the actual outline paths into the children. This
    // way, we don't need to create a new path for every glyph if we have many
    // consecutive glyphs with just outlines (which is the most common case).
    let mut builder: PathBuilder = PathBuilder::new();
    assert(builder_outline(builder) == Outline::empty());
    let mut g: usize = 0;
    while g < span.positioned_glyphs.len()
        invariant
            s < text.layouted@.len(),
            *span == text.layouted@[s as int],
            g <= span.positioned_glyphs@.len(),
            are_total(*sources),
            are_contents(*sources, *text, s as int, hinting, fontdb, contents, g as int),
            after_glyphs(*text, s as int, start, contents, g as nat) == (Run {
                nodes: node_views(new_children@),
                pending: builder_outline(builder),
            }),
        decreases span.positioned_glyphs@.len() - g,
    {
        let content: GlyphContent<G> = resolve_glyph(
            sources,
            text.rendering_mode,
            span,
            &span.positioned_glyphs[g],
            hinting,
            fontdb,
        );
        proof {
            lemma_after_glyphs_prefix(
                *text,
                s as int,
                start,
                contents,
                contents.push(content@),
                g as nat,
            );
            contents = contents.push(content@);
        }
        push_glyph(text, s, g, &mut builder, new_children, content);
        g = g + 1;
    }
    push_outline_paths(span, &mut builder, new_children, rendering_mode, text.abs_transform);
    push_decoration(&span.line_through, new_children, rendering_mode);
}

/// What a run is after `n` glyphs does not depend on the glyphs after those.
pub(crate) proof fn lemma_after_glyphs_prefix<G>(
    text: Text,
    s: int,
    nodes: Seq<NodeView<G>>,
    a: Seq<GlyphContentView<G>>,
    b: Seq<GlyphContentView<G>>,
    n: nat,
)
    requires
        n <= a.len(),
        n <= b.len(),
        forall|i: int| 0 <= i < n ==> a[i] == b[i],
    ensures
        after_glyphs(text, s, nodes, a, n) == after_glyphs(text, s, nodes, b, n),
    decreases n,
{
    if n > 0 {
        lemma_after_glyphs_prefix(text, s, nodes, a, b, (n - 1) as nat);
    }
}

/// What the nodes are after `n` spans does not depend on the spans after those.
proof fn lemma_text_nodes_prefix<G>(
    text: Text,
    a: Seq<Seq<GlyphContentView<G>>>,
    b: Seq<Seq<GlyphContentView<G>>>,
    n: nat,
)
    requires
        n <= a.len(),
        n <= b.len(),
        forall|i: int| 0 <= i < n ==> a[i] == b[i],
    ensures
        text_nodes(text, a, n) == text_nodes(text, b, n),
    decreases n,
{
    if n > 0 {
        lemma_text_nodes_prefix(text, a, b, (n - 1) as nat);
    }
}

/// Flattens text into the nodes that it is drawn from.
///
/// A path whose bounding box cannot be computed is for the caller to drop.
pub fn flatten<G, X, C, S, R, H, O>(
    text: &Text,
    hinting: Option<FontHintingOptions>,
    fontdb: &Database,
    sources: &GlyphSources<X, C, S, R, H, O>,
) -> (res: FlattenedText<G>) where
    X: Fn(ID) -> bool,
    C: Fn(ID, GlyphId, &Vec<FontVariation>) -> Option<G>,
    S: Fn(ID, GlyphId) -> Option<G>,
    R: Fn(BitmapGlyphKey) -> Option<BitmapImage>,
    H: Fn(ID, u32, Option<FontHintingOptions>, &Database) -> Option<FontHintingOptions>,
    O: Fn(ID, GlyphId, &Vec<FontVariation>, Option<GlyphHinting>) -> Option<tiny_skia_path::Path>,

    requires
        are_total(*sources),
    ensures
        res.id@ == text.id@,
        exists|contents: Seq<Seq<GlyphContentView<G>>>| #[trigger]
            are_text_contents(
                *sources,
                *text,
                hinting,
                fontdb,
                contents,
                text.layouted@.len() as int,
            ) && node_views(res.children@) == text_nodes(*text, contents, text.layouted@.len()),
{
    let mut new_children: Vec<Node<G>> = Vec::new();
    let ghost mut contents: Seq<Seq<GlyphContentView<G>>> = Seq::empty();
    assert(node_views(new_children@) =~= Seq::empty());
    let mut s: usize = 0;
    while s < text.layouted.len()
        invariant
            s <= text.layouted@.len(),
            are_total(*sources),
            are_text_contents(*sources, *text, hinting, fontdb, contents, s as int),
            node_views(new_children@) == text_nodes(*text, contents, s as nat),
        decreases text.layouted@.len() - s,
    {
        let ghost before: Seq<NodeView<G>> = node_views(new_children@);
        flatten_span(text, s, &mut new_children, hinting, fontdb, sources);
        proof {
            let span_contents = choose|span_contents: Seq<GlyphContentView<G>>| #[trigger]
                are_contents(
                    *sources,
                    *text,
                    s as int,
                    hinting,
                    fontdb,
                    span_contents,
                    text.layouted@[s as int].positioned_glyphs@.len() as int,
                ) && node_views(new_children@) == after_span(
                    *text,
                    s as int,
                    before,
                    span_contents,
                );
            lemma_text_nodes_prefix(*text, contents, contents.push(span_contents), s as nat);
            contents = contents.push(span_contents);
        }
        s = s + 1;
    }
    FlattenedText { id: text.id.clone(), children: new_children }
}

/// Text that is drawn for speed has crisp edges, and any other is precise.
pub proof fn law_speed_gives_crisp_edges(text: Text)
    ensures
        rendering_mode_of(text) is CrispEdges <==> text.rendering_mode is OptimizeSpeed,
        rendering_mode_of(text) is GeometricPrecision <==> text.rendering_mode is OptimizeLegibility
            || text.rendering_mode is GeometricPrecision,
{
}

/// A bitmap is placed by its bearings and its pixels per em. One of an `sbix`
/// table is also placed by its height and by the lower left corner of the glyph,
/// which is the origin where the glyph has no bounds.
pub proof fn law_bitmap_is_placed_by_its_metrics(image: BitmapImageView)
    ensures
        match bitmap_transform_of(image) {
            GlyphTransform::Sbix { x, y, x_min, y_min, pixels_per_em, height } => {
                &&& image.is_sbix
                &&& x == image.x
                &&& y == image.y
                &&& pixels_per_em == image.pixels_per_em
                &&& height == image.image.size.height
                &&& image.glyph_bbox matches Some(bbox) ==> x_min == bbox.x_min && y_min
                    == bbox.y_min
                &&& image.glyph_bbox is None ==> x_min == 0 && y_min == 0
            },
            GlyphTransform::Cbdt { x, y, pixels_per_em } => {
                &&& !image.is_sbix
                &&& x == image.x
                &&& y == image.y
                &&& pixels_per_em == image.pixels_per_em
            },
            _ => false,
        },
{
}

/// What nodes are said to hold is what they hold, one for one.
pub proof fn law_flattened_views_are_faithful<G>(nodes: Seq<Node<G>>, i: int)
    requires
        0 <= i < nodes.len(),
    ensures
        node_views(nodes).len() == nodes.len(),
        match nodes[i] {
            Node::Path(path) => node_views(nodes)[i] == NodeView::<G>::Path(path@),
            Node::Group(group) => node_views(nodes)[i] matches NodeView::Group(view) && {
                &&& view.span == group.span
                &&& view.glyph == group.glyph
                &&& view.transform == group.transform
                &&& match group.child {
                    Child::Tree(root) => view.child == ChildView::Tree(root),
                    Child::Node(node) => view.child == ChildView::Node(node),
                    Child::Image(image) => view.child == ChildView::<G>::Image(image@),
                }
            },
        },
{
}

} // verus!
