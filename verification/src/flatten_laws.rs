//! What holds of flattened text as a whole.

use fontdb::{Database, ID};
use tiny_skia_path::Transform;
use vstd::prelude::*;

use crate::bitmap::{BitmapGlyphKey, BitmapImage};
use crate::flatten::{
    after_glyphs, after_span, are_contents, are_text_contents, before_glyphs, bitmap_transform_of,
    decorated, flushed, group_node, lemma_after_glyphs_prefix, outline_path, rendering_mode_of,
    text_nodes, ChildView, GlyphTransform, GroupView, NodeView, Run,
};
use crate::hinting::{FontHintingOptions, GlyphHinting};
use crate::path::{have_bounds, Outline};
use crate::resolve::{
    answers_alike, are_consistent, law_hinting_changes_nothing_but_outlines,
    law_hinting_only_reaches_outlines, law_only_the_selected_hinting_counts, resolves_to,
    same_but_outlines, with_hinting, GlyphContentView, GlyphSources,
};
use crate::tree::{
    FontVariation, GlyphId, PathNode, PathNodeView, PositionedGlyph, ShapeRendering, Span, Text,
};

verus! {

/// The groups among nodes, in their order.
pub open spec fn groups_of<G>(nodes: Seq<NodeView<G>>) -> Seq<GroupView<G>>
    decreases nodes.len(),
{
    if nodes.len() == 0 {
        Seq::empty()
    } else {
        match nodes.last() {
            NodeView::Group(group) => groups_of(nodes.drop_last()).push(group),
            NodeView::Path(_) => groups_of(nodes.drop_last()),
        }
    }
}

/// The groups that the first `n` glyphs of span `s` are drawn in: one for each
/// glyph that is not an outline.
pub open spec fn glyph_groups<G>(s: int, contents: Seq<GlyphContentView<G>>, n: nat) -> Seq<
    GroupView<G>,
>
    decreases n,
{
    if n == 0 {
        Seq::empty()
    } else {
        let before = glyph_groups(s, contents, (n - 1) as nat);
        let group = |transform: GlyphTransform, child: ChildView<G>|
            GroupView { span: s, glyph: n - 1, transform, child };
        match contents[n - 1] {
            GlyphContentView::Colr(root) => before.push(
                group(GlyphTransform::Colr, ChildView::Tree(root)),
            ),
            GlyphContentView::Svg(node) => before.push(
                group(GlyphTransform::Svg, ChildView::Node(node)),
            ),
            GlyphContentView::Bitmap(image) => before.push(
                group(bitmap_transform_of(image), ChildView::Image(image.image)),
            ),
            GlyphContentView::Outline(_) => before,
        }
    }
}

/// The groups that the glyphs of the first `n` spans are drawn in.
pub open spec fn text_groups<G>(contents: Seq<Seq<GlyphContentView<G>>>, n: nat) -> Seq<
    GroupView<G>,
>
    decreases n,
{
    if n == 0 {
        Seq::empty()
    } else {
        text_groups(contents, (n - 1) as nat) + glyph_groups(
            n - 1,
            contents[n - 1],
            contents[n - 1].len(),
        )
    }
}

proof fn lemma_groups_push<G>(nodes: Seq<NodeView<G>>, node: NodeView<G>)
    ensures
        groups_of(nodes.push(node)) == match node {
            NodeView::Group(group) => groups_of(nodes).push(group),
            NodeView::Path(_) => groups_of(nodes),
        },
{
    assert(nodes.push(node).drop_last() =~= nodes);
}

proof fn lemma_groups_flushed<G>(
    nodes: Seq<NodeView<G>>,
    span: Span,
    rendering_mode: ShapeRendering,
    abs_transform: Transform,
    pending: Outline,
)
    ensures
        groups_of(flushed(nodes, span, rendering_mode, abs_transform, pending)) == groups_of(nodes),
{
    lemma_groups_push(
        nodes,
        NodeView::Path(outline_path(span, rendering_mode, abs_transform, pending)),
    );
}

proof fn lemma_groups_decorated<G>(
    nodes: Seq<NodeView<G>>,
    decoration: Option<PathNode>,
    rendering_mode: ShapeRendering,
)
    ensures
        groups_of(decorated(nodes, decoration, rendering_mode)) == groups_of(nodes),
{
    if let Some(path) = decoration {
        lemma_groups_push(nodes, NodeView::Path(PathNodeView { rendering_mode, ..path@ }));
    }
}

proof fn lemma_groups_after_glyphs<G>(
    text: Text,
    s: int,
    nodes: Seq<NodeView<G>>,
    contents: Seq<GlyphContentView<G>>,
    n: nat,
)
    requires
        n <= contents.len(),
    ensures
        groups_of(after_glyphs(text, s, nodes, contents, n).nodes) == groups_of(nodes)
            + glyph_groups(s, contents, n),
    decreases n,
{
    if n == 0 {
        assert(groups_of(nodes) + Seq::empty() =~= groups_of(nodes));
    } else {
        let m: nat = (n - 1) as nat;
        lemma_groups_after_glyphs(text, s, nodes, contents, m);
        let run: Run<G> = after_glyphs(text, s, nodes, contents, m);
        let span: Span = text.layouted@[s];
        let mode: ShapeRendering = rendering_mode_of(text);
        let cleared: Seq<NodeView<G>> = flushed(
            run.nodes,
            span,
            mode,
            text.abs_transform,
            run.pending,
        );
        lemma_groups_flushed(run.nodes, span, mode, text.abs_transform, run.pending);
        let before: Seq<GroupView<G>> = groups_of(nodes) + glyph_groups(s, contents, m);
        let after: Seq<GroupView<G>> = groups_of(nodes) + glyph_groups(s, contents, n);
        match contents[n - 1] {
            GlyphContentView::Colr(root) => {
                let node: NodeView<G> = group_node(
                    s,
                    n - 1,
                    GlyphTransform::Colr,
                    ChildView::Tree(root),
                );
                lemma_groups_push(cleared, node);
                assert(after =~= before.push(node->Group_0));
            },
            GlyphContentView::Svg(inner) => {
                let node: NodeView<G> = group_node(
                    s,
                    n - 1,
                    GlyphTransform::Svg,
                    ChildView::Node(inner),
                );
                lemma_groups_push(cleared, node);
                assert(after =~= before.push(node->Group_0));
            },
            GlyphContentView::Bitmap(image) => {
                let node: NodeView<G> = group_node(
                    s,
                    n - 1,
                    bitmap_transform_of(image),
                    ChildView::Image(image.image),
                );
                lemma_groups_push(cleared, node);
                assert(after =~= before.push(node->Group_0));
            },
            GlyphContentView::Outline(_) => {},
        }
    }
}

proof fn lemma_groups_after_span<G>(
    text: Text,
    s: int,
    nodes: Seq<NodeView<G>>,
    contents: Seq<GlyphContentView<G>>,
)
    ensures
        groups_of(after_span(text, s, nodes, contents)) == groups_of(nodes) + glyph_groups(
            s,
            contents,
            contents.len(),
        ),
{
    let span: Span = text.layouted@[s];
    let mode: ShapeRendering = rendering_mode_of(text);
    lemma_groups_decorated(nodes, span.overline, mode);
    lemma_groups_decorated(decorated(nodes, span.overline, mode), span.underline, mode);
    let start: Seq<NodeView<G>> = before_glyphs(text, s, nodes);
    lemma_groups_after_glyphs(text, s, start, contents, contents.len());
    let run: Run<G> = after_glyphs(text, s, start, contents, contents.len());
    lemma_groups_flushed(run.nodes, span, mode, text.abs_transform, run.pending);
    lemma_groups_decorated(
        flushed(run.nodes, span, mode, text.abs_transform, run.pending),
        span.line_through,
        mode,
    );
}

/// Every glyph that is not an outline is drawn in exactly one group of its own,
/// and these groups are in the order of the glyphs.
pub proof fn law_one_group_per_image_glyph<G>(
    text: Text,
    contents: Seq<Seq<GlyphContentView<G>>>,
    n: nat,
)
    requires
        n <= contents.len(),
    ensures
        groups_of(text_nodes(text, contents, n)) == text_groups(contents, n),
    decreases n,
{
    if n > 0 {
        let m: nat = (n - 1) as nat;
        law_one_group_per_image_glyph(text, contents, m);
        lemma_groups_after_span(text, n - 1, text_nodes(text, contents, m), contents[n - 1]);
    }
}

/// Fitting outlines to a grid, or not, leaves every other glyph as it is and
/// where it is.
pub proof fn law_outlines_never_move_images<G>(
    text: Text,
    a: Seq<Seq<GlyphContentView<G>>>,
    b: Seq<Seq<GlyphContentView<G>>>,
    n: nat,
)
    requires
        n <= a.len(),
        n <= b.len(),
        forall|s: int| 0 <= s < n ==> (#[trigger] a[s]).len() == (#[trigger] b[s]).len(),
        forall|s: int, g: int|
            0 <= s < n && 0 <= g < a[s].len() ==> same_but_outlines(
                #[trigger] a[s][g],
                #[trigger] b[s][g],
            ),
    ensures
        groups_of(text_nodes(text, a, n)) == groups_of(text_nodes(text, b, n)),
    decreases n,
{
    law_one_group_per_image_glyph(text, a, n);
    law_one_group_per_image_glyph(text, b, n);
    if n > 0 {
        let m: nat = (n - 1) as nat;
        law_outlines_never_move_images(text, a, b, m);
        law_one_group_per_image_glyph(text, a, m);
        law_one_group_per_image_glyph(text, b, m);
        assert(a[n - 1].len() == b[n - 1].len());
        lemma_same_groups(n - 1, a[n - 1], b[n - 1], a[n - 1].len());
    }
}

proof fn lemma_same_groups<G>(
    s: int,
    a: Seq<GlyphContentView<G>>,
    b: Seq<GlyphContentView<G>>,
    n: nat,
)
    requires
        n <= a.len(),
        n <= b.len(),
        forall|g: int| 0 <= g < n ==> same_but_outlines(#[trigger] a[g], #[trigger] b[g]),
    ensures
        glyph_groups(s, a, n) == glyph_groups(s, b, n),
    decreases n,
{
    if n > 0 {
        lemma_same_groups(s, a, b, (n - 1) as nat);
        assert(same_but_outlines(a[n - 1], b[n - 1]));
    }
}

/// The outlines of the first `n` glyphs, one after the other.
pub open spec fn joined_outlines<G>(contents: Seq<GlyphContentView<G>>, n: nat) -> Outline
    decreases n,
{
    if n == 0 {
        Outline::empty()
    } else {
        let before = joined_outlines(contents, (n - 1) as nat);
        match contents[n - 1] {
            GlyphContentView::Outline(Some(outline)) => before.followed_by(outline),
            _ => before,
        }
    }
}

/// The outlines of the paths among nodes, one after the other.
pub open spec fn drawn_outlines<G>(nodes: Seq<NodeView<G>>) -> Outline
    decreases nodes.len(),
{
    if nodes.len() == 0 {
        Outline::empty()
    } else {
        let before = drawn_outlines(nodes.drop_last());
        match nodes.last() {
            NodeView::Path(path) => before.followed_by(path.outline),
            NodeView::Group(_) => before,
        }
    }
}

/// Whether glyph `k` ends what was collected before it: any glyph does that is
/// not an outline, and so does the end of the span.
pub open spec fn ends_a_run<G>(contents: Seq<GlyphContentView<G>>, k: int) -> bool {
    k == contents.len() || contents[k] !is Outline
}

proof fn lemma_drawn_push<G>(nodes: Seq<NodeView<G>>, node: NodeView<G>)
    ensures
        drawn_outlines(nodes.push(node)) == match node {
            NodeView::Path(path) => drawn_outlines(nodes).followed_by(path.outline),
            NodeView::Group(_) => drawn_outlines(nodes),
        },
{
    assert(nodes.push(node).drop_last() =~= nodes);
}

proof fn lemma_drawn_flushed<G>(
    nodes: Seq<NodeView<G>>,
    span: Span,
    rendering_mode: ShapeRendering,
    abs_transform: Transform,
    pending: Outline,
)
    requires
        pending.is_drawable() || pending == Outline::empty(),
    ensures
        drawn_outlines(flushed(nodes, span, rendering_mode, abs_transform, pending))
            == drawn_outlines(nodes).followed_by(pending),
{
    lemma_drawn_push(
        nodes,
        NodeView::Path(outline_path(span, rendering_mode, abs_transform, pending)),
    );
    assert(drawn_outlines(nodes).followed_by(Outline::empty()) =~= drawn_outlines(nodes));
}

proof fn lemma_drawn_after_glyphs<G>(
    text: Text,
    s: int,
    nodes: Seq<NodeView<G>>,
    contents: Seq<GlyphContentView<G>>,
    n: nat,
)
    requires
        n <= contents.len(),
        forall|k: int|
            0 <= k < n && #[trigger] ends_a_run(contents, k) ==> {
                let pending = after_glyphs(text, s, nodes, contents, k as nat).pending;
                pending.is_drawable() || pending == Outline::empty()
            },
    ensures
        ({
            let run = after_glyphs(text, s, nodes, contents, n);
            drawn_outlines(run.nodes).followed_by(run.pending) == drawn_outlines(nodes).followed_by(
                joined_outlines(contents, n),
            )
        }),
    decreases n,
{
    if n > 0 {
        let m: nat = (n - 1) as nat;
        lemma_drawn_after_glyphs(text, s, nodes, contents, m);
        let run: Run<G> = after_glyphs(text, s, nodes, contents, m);
        let span: Span = text.layouted@[s];
        let mode: ShapeRendering = rendering_mode_of(text);
        let cleared: Seq<NodeView<G>> = flushed(
            run.nodes,
            span,
            mode,
            text.abs_transform,
            run.pending,
        );
        let whole: Outline = drawn_outlines(run.nodes).followed_by(run.pending);
        match contents[n - 1] {
            GlyphContentView::Colr(root) => {
                assert(ends_a_run(contents, n - 1));
                lemma_drawn_flushed(run.nodes, span, mode, text.abs_transform, run.pending);
                lemma_drawn_push(
                    cleared,
                    group_node(s, n - 1, GlyphTransform::Colr, ChildView::Tree(root)),
                );
                assert(whole.followed_by(Outline::empty()) =~= whole);
            },
            GlyphContentView::Svg(inner) => {
                assert(ends_a_run(contents, n - 1));
                lemma_drawn_flushed(run.nodes, span, mode, text.abs_transform, run.pending);
                lemma_drawn_push(
                    cleared,
                    group_node(s, n - 1, GlyphTransform::Svg, ChildView::Node(inner)),
                );
                assert(whole.followed_by(Outline::empty()) =~= whole);
            },
            GlyphContentView::Bitmap(image) => {
                assert(ends_a_run(contents, n - 1));
                lemma_drawn_flushed(run.nodes, span, mode, text.abs_transform, run.pending);
                lemma_drawn_push(
                    cleared,
                    group_node(
                        s,
                        n - 1,
                        bitmap_transform_of(image),
                        ChildView::Image(image.image),
                    ),
                );
                assert(whole.followed_by(Outline::empty()) =~= whole);
            },
            GlyphContentView::Outline(Some(outline)) => {
                assert(drawn_outlines(run.nodes).followed_by(run.pending.followed_by(outline))
                    =~= whole.followed_by(outline));
                assert(drawn_outlines(nodes).followed_by(
                    joined_outlines(contents, m).followed_by(outline),
                ) =~= drawn_outlines(nodes).followed_by(joined_outlines(contents, m)).followed_by(
                    outline,
                ));
            },
            GlyphContentView::Outline(None) => {},
        }
    }
}

/// The outlines of a span are all drawn, in the order of its glyphs, however
/// its other glyphs split them up, as long as a path can be made of each part.
pub proof fn law_outlines_are_drawn_in_order<G>(
    text: Text,
    s: int,
    nodes: Seq<NodeView<G>>,
    contents: Seq<GlyphContentView<G>>,
)
    requires
        forall|k: int|
            0 <= k <= contents.len() && #[trigger] ends_a_run(contents, k) ==> {
                let pending = after_glyphs(text, s, nodes, contents, k as nat).pending;
                pending.is_drawable() || pending == Outline::empty()
            },
    ensures
        ({
            let run = after_glyphs(text, s, nodes, contents, contents.len());
            drawn_outlines(
                flushed(
                    run.nodes,
                    text.layouted@[s],
                    rendering_mode_of(text),
                    text.abs_transform,
                    run.pending,
                ),
            ) == drawn_outlines(nodes).followed_by(joined_outlines(contents, contents.len()))
        }),
{
    lemma_drawn_after_glyphs(text, s, nodes, contents, contents.len());
    let run: Run<G> = after_glyphs(text, s, nodes, contents, contents.len());
    assert(ends_a_run(contents, contents.len() as int));
    lemma_drawn_flushed(
        run.nodes,
        text.layouted@[s],
        rendering_mode_of(text),
        text.abs_transform,
        run.pending,
    );
}

proof fn lemma_outlines_stay_pending<G>(
    text: Text,
    s: int,
    nodes: Seq<NodeView<G>>,
    contents: Seq<GlyphContentView<G>>,
    n: nat,
)
    requires
        n <= contents.len(),
        forall|g: int| 0 <= g < n ==> (#[trigger] contents[g]) is Outline,
    ensures
        after_glyphs(text, s, nodes, contents, n) == (Run {
            nodes,
            pending: joined_outlines(contents, n),
        }),
    decreases n,
{
    if n > 0 {
        lemma_outlines_stay_pending(text, s, nodes, contents, (n - 1) as nat);
        assert(contents[n - 1] is Outline);
    }
}

/// Collected outlines are pushed as soon as a different glyph is met: the path
/// that they make comes right before the group of that glyph, and nothing of
/// them is left for later.
pub proof fn law_another_glyph_ends_the_outlines<G>(
    text: Text,
    s: int,
    nodes: Seq<NodeView<G>>,
    contents: Seq<GlyphContentView<G>>,
    n: nat,
)
    requires
        n < contents.len(),
        contents[n as int] !is Outline,
    ensures
        ({
            let before = after_glyphs(text, s, nodes, contents, n);
            let after = after_glyphs(text, s, nodes, contents, n + 1);
            &&& after.pending == Outline::empty()
            &&& after.nodes.len() > 0
            &&& after.nodes.drop_last() == flushed(
                before.nodes,
                text.layouted@[s],
                rendering_mode_of(text),
                text.abs_transform,
                before.pending,
            )
            &&& after.nodes.last() matches NodeView::Group(group) && group.span == s && group.glyph
                == n
        }),
{
    let before: Run<G> = after_glyphs(text, s, nodes, contents, n);
    let after: Run<G> = after_glyphs(text, s, nodes, contents, n + 1);
    assert(after.nodes.drop_last() =~= flushed(
        before.nodes,
        text.layouted@[s],
        rendering_mode_of(text),
        text.abs_transform,
        before.pending,
    ));
}

/// A span of outlines is drawn as one path, whatever the number of its glyphs.
pub proof fn law_span_of_outlines_is_one_path<G>(
    text: Text,
    s: int,
    nodes: Seq<NodeView<G>>,
    contents: Seq<GlyphContentView<G>>,
)
    requires
        forall|g: int| 0 <= g < contents.len() ==> (#[trigger] contents[g]) is Outline,
    ensures
        after_span(text, s, nodes, contents) == decorated(
            flushed(
                before_glyphs(text, s, nodes),
                text.layouted@[s],
                rendering_mode_of(text),
                text.abs_transform,
                joined_outlines(contents, contents.len()),
            ),
            text.layouted@[s].line_through,
            rendering_mode_of(text),
        ),
{
    lemma_outlines_stay_pending(
        text,
        s,
        before_glyphs(text, s, nodes),
        contents,
        contents.len(),
    );
}

proof fn lemma_glyphs_extend<G>(
    text: Text,
    s: int,
    nodes: Seq<NodeView<G>>,
    contents: Seq<GlyphContentView<G>>,
    n: nat,
)
    requires
        n <= contents.len(),
    ensures
        nodes.is_prefix_of(after_glyphs(text, s, nodes, contents, n).nodes),
    decreases n,
{
    if n > 0 {
        lemma_glyphs_extend(text, s, nodes, contents, (n - 1) as nat);
    }
}

/// The overline and the underline are drawn before the glyphs of their span,
/// and the line through them after. What was drawn before the span stays.
pub proof fn law_decorations_frame_the_glyphs<G>(
    text: Text,
    s: int,
    nodes: Seq<NodeView<G>>,
    contents: Seq<GlyphContentView<G>>,
)
    ensures
        nodes.is_prefix_of(before_glyphs(text, s, nodes)),
        before_glyphs(text, s, nodes).is_prefix_of(after_span(text, s, nodes, contents)),
        text.layouted@[s].line_through matches Some(path) ==> after_span(
            text,
            s,
            nodes,
            contents,
        ).last() == NodeView::<G>::Path(
            PathNodeView { rendering_mode: rendering_mode_of(text), ..path@ },
        ),
{
    lemma_glyphs_extend(
        text,
        s,
        before_glyphs(text, s, nodes),
        contents,
        contents.len(),
    );
}

/// Spans are drawn in their order: a span adds to what those before it drew.
pub proof fn law_spans_are_drawn_in_order<G>(
    text: Text,
    contents: Seq<Seq<GlyphContentView<G>>>,
    m: nat,
    n: nat,
)
    requires
        m <= n <= contents.len(),
    ensures
        text_nodes(text, contents, m).is_prefix_of(text_nodes(text, contents, n)),
    decreases n,
{
    if m < n {
        law_spans_are_drawn_in_order(text, contents, m, (n - 1) as nat);
        law_decorations_frame_the_glyphs(
            text,
            n - 1,
            text_nodes(text, contents, (n - 1) as nat),
            contents[n - 1],
        );
    }
}

/// Whether every path among nodes is rendered in the same way.
pub open spec fn are_rendered<G>(
    nodes: Seq<NodeView<G>>,
    rendering_mode: ShapeRendering,
) -> bool {
    forall|i: int|
        0 <= i < nodes.len() ==> match #[trigger] nodes[i] {
            NodeView::Path(path) => path.rendering_mode == rendering_mode,
            NodeView::Group(_) => true,
        }
}

proof fn lemma_glyphs_are_rendered<G>(
    text: Text,
    s: int,
    nodes: Seq<NodeView<G>>,
    contents: Seq<GlyphContentView<G>>,
    n: nat,
)
    requires
        n <= contents.len(),
        are_rendered(nodes, rendering_mode_of(text)),
    ensures
        are_rendered(
            after_glyphs(text, s, nodes, contents, n).nodes,
            rendering_mode_of(text),
        ),
    decreases n,
{
    if n > 0 {
        lemma_glyphs_are_rendered(text, s, nodes, contents, (n - 1) as nat);
    }
}

/// Outlines and decorations alike are rendered as the text element asks for.
pub proof fn law_paths_are_rendered_like_the_text<G>(
    text: Text,
    contents: Seq<Seq<GlyphContentView<G>>>,
    n: nat,
)
    requires
        n <= contents.len(),
    ensures
        are_rendered(text_nodes(text, contents, n), rendering_mode_of(text)),
    decreases n,
{
    if n > 0 {
        let nodes: Seq<NodeView<G>> = text_nodes(text, contents, (n - 1) as nat);
        law_paths_are_rendered_like_the_text(text, contents, (n - 1) as nat);
        lemma_glyphs_are_rendered(
            text,
            n - 1,
            before_glyphs(text, n - 1, nodes),
            contents[n - 1],
            contents[n - 1].len(),
        );
    }
}

/// Hinting a font that is drawn from images changes nothing, and neither does
/// declining to: if two selectors answer alike for every glyph that is an
/// outline, the whole text can be drawn from the same contents.
pub proof fn law_only_hinting_of_outlines_counts<G, X, C, S, R, H, J, O>(
    sources: GlyphSources<X, C, S, R, H, O>,
    select_hinting: J,
    text: Text,
    global_a: Option<FontHintingOptions>,
    global_b: Option<FontHintingOptions>,
    fontdb: &Database,
    contents: Seq<Seq<GlyphContentView<G>>>,
    n: int,
) where
    X: Fn(ID) -> bool,
    C: Fn(ID, GlyphId, &Vec<FontVariation>) -> Option<G>,
    S: Fn(ID, GlyphId) -> Option<G>,
    R: Fn(BitmapGlyphKey) -> Option<BitmapImage>,
    H: Fn(ID, u32, Option<FontHintingOptions>, &Database) -> Option<FontHintingOptions>,
    J: Fn(ID, u32, Option<FontHintingOptions>, &Database) -> Option<FontHintingOptions>,
    O: Fn(ID, GlyphId, &Vec<FontVariation>, Option<GlyphHinting>) -> Option<tiny_skia_path::Path>,

    requires
        are_text_contents(sources, text, global_a, fontdb, contents, n),
        forall|s: int, g: int|
            0 <= s < n && 0 <= g < contents[s].len() && (#[trigger] contents[s][g]) is Outline
                ==> answers_alike(
                sources.select_hinting,
                select_hinting,
                text.layouted@[s].positioned_glyphs@[g],
                global_a,
                global_b,
                fontdb,
            ),
    ensures
        are_text_contents(
            with_hinting(sources, select_hinting),
            text,
            global_b,
            fontdb,
            contents,
            n,
        ),
{
    let other: GlyphSources<X, C, S, R, J, O> = with_hinting(sources, select_hinting);
    assert forall|s: int| 0 <= s < n implies are_contents(
        other,
        text,
        s,
        global_b,
        fontdb,
        #[trigger] contents[s],
        text.layouted@[s].positioned_glyphs@.len() as int,
    ) by {
        let span: Span = text.layouted@[s];
        assert forall|g: int| 0 <= g < span.positioned_glyphs@.len() implies resolves_to(
            other,
            text.rendering_mode,
            span,
            span.positioned_glyphs@[g],
            global_b,
            fontdb,
            #[trigger] contents[s][g],
        ) by {
            let glyph: PositionedGlyph = span.positioned_glyphs@[g];
            let content: GlyphContentView<G> = contents[s][g];
            if content is Outline {
                law_only_the_selected_hinting_counts(
                    sources,
                    select_hinting,
                    text.rendering_mode,
                    span,
                    glyph,
                    global_a,
                    global_b,
                    fontdb,
                    content,
                );
            } else {
                law_hinting_only_reaches_outlines(
                    sources,
                    select_hinting,
                    text.rendering_mode,
                    text.rendering_mode,
                    span,
                    glyph,
                    global_a,
                    global_b,
                    fontdb,
                    fontdb,
                    content,
                );
            }
        }
    }
}

/// Hinting never moves a glyph: over sources that are consistent, the groups of
/// flattened text are the same under every configuration, at the same places.
pub proof fn law_hinting_never_moves_images<G, X, C, S, R, H, J, O>(
    sources: GlyphSources<X, C, S, R, H, O>,
    select_hinting: J,
    text: Text,
    global_a: Option<FontHintingOptions>,
    global_b: Option<FontHintingOptions>,
    fontdb: &Database,
    a: Seq<Seq<GlyphContentView<G>>>,
    b: Seq<Seq<GlyphContentView<G>>>,
    n: nat,
) where
    X: Fn(ID) -> bool,
    C: Fn(ID, GlyphId, &Vec<FontVariation>) -> Option<G>,
    S: Fn(ID, GlyphId) -> Option<G>,
    R: Fn(BitmapGlyphKey) -> Option<BitmapImage>,
    H: Fn(ID, u32, Option<FontHintingOptions>, &Database) -> Option<FontHintingOptions>,
    J: Fn(ID, u32, Option<FontHintingOptions>, &Database) -> Option<FontHintingOptions>,
    O: Fn(ID, GlyphId, &Vec<FontVariation>, Option<GlyphHinting>) -> Option<tiny_skia_path::Path>,

    requires
        are_consistent(sources),
        are_text_contents(sources, text, global_a, fontdb, a, n as int),
        are_text_contents(
            with_hinting(sources, select_hinting),
            text,
            global_b,
            fontdb,
            b,
            n as int,
        ),
    ensures
        groups_of(text_nodes(text, a, n)) == groups_of(text_nodes(text, b, n)),
{
    let other: GlyphSources<X, C, S, R, J, O> = with_hinting(sources, select_hinting);
    assert forall|s: int| 0 <= s < n implies (#[trigger] a[s]).len() == (#[trigger] b[s]).len() by {
        let len: int = text.layouted@[s].positioned_glyphs@.len() as int;
        assert(are_contents(sources, text, s, global_a, fontdb, a[s], len));
        assert(are_contents(other, text, s, global_b, fontdb, b[s], len));
    }
    assert forall|s: int, g: int| 0 <= s < n && 0 <= g < a[s].len() implies same_but_outlines(
        #[trigger] a[s][g],
        #[trigger] b[s][g],
    ) by {
        let span: Span = text.layouted@[s];
        let len: int = span.positioned_glyphs@.len() as int;
        assert(are_contents(sources, text, s, global_a, fontdb, a[s], len));
        assert(are_contents(other, text, s, global_b, fontdb, b[s], len));
        law_hinting_changes_nothing_but_outlines(
            sources,
            select_hinting,
            text.rendering_mode,
            text.rendering_mode,
            span,
            span.positioned_glyphs@[g],
            global_a,
            global_b,
            fontdb,
            fontdb,
            a[s][g],
            b[s][g],
        );
    }
    law_outlines_never_move_images(text, a, b, n);
}

/// One if there is such a decoration, and zero if there is none.
pub open spec fn count(decoration: Option<PathNode>) -> int {
    if decoration is Some {
        1
    } else {
        0
    }
}

/// Whether a node is this decoration, rendered like the text that it decorates.
pub open spec fn is_drawn<G>(node: NodeView<G>, decoration: PathNode, text: Text) -> bool {
    node matches NodeView::Path(path) && {
        &&& path.visible == decoration.visible
        &&& path.fill == decoration.fill
        &&& path.stroke == decoration.stroke
        &&& path.paint_order == decoration.paint_order
        &&& path.outline.verbs == decoration@.outline.verbs
        &&& path.outline.points == decoration@.outline.points
        &&& path.abs_transform == decoration.abs_transform
        &&& path.rendering_mode == (if text.rendering_mode is OptimizeSpeed {
            ShapeRendering::CrispEdges
        } else {
            ShapeRendering::GeometricPrecision
        })
    }
}

/// Every decoration of a span is drawn whenever it is there, whatever the others
/// are: the overline right after what was drawn before, the underline next, and
/// the line through at the very end.
pub proof fn law_every_decoration_is_drawn<G>(
    text: Text,
    s: int,
    nodes: Seq<NodeView<G>>,
    contents: Seq<GlyphContentView<G>>,
)
    ensures
        ({
            let span = text.layouted@[s];
            let drawn = after_span(text, s, nodes, contents);
            let first = nodes.len() as int;
            let second = first + count(span.overline);
            let third = second + count(span.underline);
            &&& drawn.len() >= third + count(span.line_through)
            &&& drawn.take(first) == nodes
            &&& span.overline matches Some(path) ==> is_drawn(drawn[first], path, text)
            &&& span.underline matches Some(path) ==> is_drawn(drawn[second], path, text)
            &&& span.line_through matches Some(path) ==> is_drawn(drawn.last(), path, text)
        }),
{
    let span: Span = text.layouted@[s];
    let start: Seq<NodeView<G>> = before_glyphs(text, s, nodes);
    let drawn: Seq<NodeView<G>> = after_span(text, s, nodes, contents);
    law_decorations_frame_the_glyphs(text, s, nodes, contents);
    lemma_glyphs_extend(text, s, start, contents, contents.len());
    assert(start.len() == nodes.len() + count(span.overline) + count(span.underline));
    assert(start == drawn.take(start.len() as int));
    assert(drawn.take(nodes.len() as int) =~= nodes) by {
        assert(nodes == start.take(nodes.len() as int));
        assert forall|i: int| 0 <= i < nodes.len() implies nodes[i] == drawn[i] by {
            assert(nodes[i] == start[i]);
            assert(start[i] == drawn[i]);
        }
    }
    let first: int = nodes.len() as int;
    let second: int = first + count(span.overline);
    if let Some(path) = span.overline {
        assert(start[first] == drawn[first]);
    }
    if let Some(path) = span.underline {
        assert(start[second] == drawn[second]);
    }
}

/// A span without glyphs is drawn as its decorations alone.
pub proof fn law_span_without_glyphs_is_its_decorations<G>(
    text: Text,
    s: int,
    nodes: Seq<NodeView<G>>,
)
    ensures
        after_span(text, s, nodes, Seq::<GlyphContentView<G>>::empty()).len() == nodes.len() + count(
            text.layouted@[s].overline,
        ) + count(text.layouted@[s].underline) + count(text.layouted@[s].line_through),
{
}

/// One more glyph that is not an outline adds exactly one node to a span: a group
/// of its own, after all that was drawn of the glyphs before it, and before the
/// line through.
pub proof fn law_image_glyph_adds_its_group<G>(
    text: Text,
    s: int,
    nodes: Seq<NodeView<G>>,
    contents: Seq<GlyphContentView<G>>,
    content: GlyphContentView<G>,
)
    requires
        content !is Outline,
    ensures
        ({
            let line_through = count(text.layouted@[s].line_through);
            let without = after_span(text, s, nodes, contents);
            let with = after_span(text, s, nodes, contents.push(content));
            let at = without.len() - line_through;
            &&& at >= 0
            &&& with.len() == without.len() + 1
            &&& with.take(at) == without.take(at)
            &&& line_through == 1 ==> with.last() == without.last()
            &&& with[at] matches NodeView::Group(group) && {
                &&& group.span == s
                &&& group.glyph == contents.len()
                &&& match content {
                    GlyphContentView::Colr(root) => group.transform == GlyphTransform::Colr
                        && group.child == ChildView::Tree(root),
                    GlyphContentView::Svg(node) => group.transform == GlyphTransform::Svg
                        && group.child == ChildView::Node(node),
                    GlyphContentView::Bitmap(image) => group.transform == bitmap_transform_of(image)
                        && group.child == ChildView::<G>::Image(image.image),
                    GlyphContentView::Outline(_) => false,
                }
            }
        }),
{
    let start: Seq<NodeView<G>> = before_glyphs(text, s, nodes);
    let n: nat = contents.len();
    let more: Seq<GlyphContentView<G>> = contents.push(content);
    lemma_after_glyphs_prefix(text, s, start, contents, more, n);
    assert(more[n as int] == content);
    let run: Run<G> = after_glyphs(text, s, start, contents, n);
    let cleared: Seq<NodeView<G>> = flushed(
        run.nodes,
        text.layouted@[s],
        rendering_mode_of(text),
        text.abs_transform,
        run.pending,
    );
    let next: Run<G> = after_glyphs(text, s, start, more, n + 1);
    assert(next.pending == Outline::empty());
    assert(next.nodes == cleared.push(next.nodes.last()));
    let without: Seq<NodeView<G>> = after_span(text, s, nodes, contents);
    let with: Seq<NodeView<G>> = after_span(text, s, nodes, more);
    let at: int = without.len() - count(text.layouted@[s].line_through);
    assert(at == cleared.len());
    assert(without.take(at) =~= cleared);
    assert(with.take(at) =~= cleared);
}

proof fn lemma_outlines_are_collected<G>(
    text: Text,
    s: int,
    nodes: Seq<NodeView<G>>,
    contents: Seq<GlyphContentView<G>>,
    outlines: Seq<GlyphContentView<G>>,
    n: nat,
)
    requires
        n <= outlines.len(),
        forall|i: int| 0 <= i < outlines.len() ==> (#[trigger] outlines[i]) is Outline,
        contents.len() == 0 || contents.last() !is Outline,
    ensures
        ({
            let before = after_glyphs(text, s, nodes, contents, contents.len());
            let after = after_glyphs(text, s, nodes, contents + outlines, contents.len() + n);
            &&& before.pending == Outline::empty()
            &&& after.nodes == before.nodes
            &&& after.pending == joined_outlines(outlines, n)
        }),
    decreases n,
{
    let m: nat = contents.len();
    let all: Seq<GlyphContentView<G>> = contents + outlines;
    if n == 0 {
        lemma_after_glyphs_prefix(text, s, nodes, contents, all, m);
        if m > 0 {
            law_another_glyph_ends_the_outlines(text, s, nodes, contents, (m - 1) as nat);
        }
    } else {
        lemma_outlines_are_collected(text, s, nodes, contents, outlines, (n - 1) as nat);
        assert(all[m + n - 1] == outlines[n - 1]);
        assert((m + n - 1) as nat == m + (n - 1) as nat);
    }
}

/// Outlines that follow each other add one node to a span, at most: a path of all
/// of them, one after the other, in the style of the span, after what was drawn
/// of the glyphs before them, and before the line through. There is none where
/// they do not make a path.
pub proof fn law_outlines_add_one_path<G>(
    text: Text,
    s: int,
    nodes: Seq<NodeView<G>>,
    contents: Seq<GlyphContentView<G>>,
    outlines: Seq<GlyphContentView<G>>,
)
    requires
        forall|i: int| 0 <= i < outlines.len() ==> (#[trigger] outlines[i]) is Outline,
        contents.len() == 0 || contents.last() !is Outline,
    ensures
        ({
            let span = text.layouted@[s];
            let line_through = count(span.line_through);
            let joined = joined_outlines(outlines, outlines.len());
            let without = after_span(text, s, nodes, contents);
            let with = after_span(text, s, nodes, contents + outlines);
            let at = without.len() - line_through;
            if joined.verbs.len() >= 2 && have_bounds(joined.points) {
                &&& at >= 0
                &&& with.len() == without.len() + 1
                &&& with.take(at) == without.take(at)
                &&& line_through == 1 ==> with.last() == without.last()
                &&& with[at] matches NodeView::Path(path) && {
                    &&& path.visible == span.visible
                    &&& path.fill == span.fill
                    &&& path.stroke == span.stroke
                    &&& path.paint_order == span.paint_order
                    &&& path.outline == joined
                    &&& path.abs_transform == text.abs_transform
                    &&& path.rendering_mode == (if text.rendering_mode is OptimizeSpeed {
                        ShapeRendering::CrispEdges
                    } else {
                        ShapeRendering::GeometricPrecision
                    })
                }
            } else {
                with == without
            }
        }),
{
    let start: Seq<NodeView<G>> = before_glyphs(text, s, nodes);
    lemma_outlines_are_collected(text, s, start, contents, outlines, outlines.len());
    assert((contents + outlines).len() == contents.len() + outlines.len());
    let run: Run<G> = after_glyphs(text, s, start, contents, contents.len());
    let without: Seq<NodeView<G>> = after_span(text, s, nodes, contents);
    let with: Seq<NodeView<G>> = after_span(text, s, nodes, contents + outlines);
    let at: int = without.len() - count(text.layouted@[s].line_through);
    assert(at == run.nodes.len());
    assert(without.take(at) =~= run.nodes);
    assert(with.take(at) =~= run.nodes);
}

/// Outlines are joined in the order of their glyphs, segment by segment and point
/// by point. A glyph without an outline adds nothing.
pub proof fn law_outlines_are_joined_in_order<G>(
    outlines: Seq<GlyphContentView<G>>,
    last: Option<Outline>,
)
    ensures
        ({
            let joined = joined_outlines(outlines, outlines.len());
            let more = outlines.push(GlyphContentView::Outline(last));
            let extended = joined_outlines(more, more.len());
            &&& outlines.len() == 0 ==> joined.verbs.len() == 0 && joined.points.len() == 0
            &&& last matches Some(last) ==> extended.verbs == joined.verbs + last.verbs
                && extended.points == joined.points + last.points
            &&& last is None ==> extended == joined
        }),
{
    let more: Seq<GlyphContentView<G>> = outlines.push(GlyphContentView::Outline(last));
    lemma_joined_prefix(outlines, more, outlines.len());
    assert(more[outlines.len() as int] == GlyphContentView::<G>::Outline(last));
}

proof fn lemma_joined_prefix<G>(
    a: Seq<GlyphContentView<G>>,
    b: Seq<GlyphContentView<G>>,
    n: nat,
)
    requires
        n <= a.len(),
        n <= b.len(),
        forall|i: int| 0 <= i < n ==> a[i] == b[i],
    ensures
        joined_outlines(a, n) == joined_outlines(b, n),
    decreases n,
{
    if n > 0 {
        lemma_joined_prefix(a, b, (n - 1) as nat);
    }
}

/// Text starts out with no nodes at all, and every span is drawn after those
/// before it, visible or not, from the contents of its own glyphs.
pub proof fn law_every_span_is_drawn<G>(
    text: Text,
    contents: Seq<Seq<GlyphContentView<G>>>,
    n: nat,
)
    requires
        n < contents.len(),
    ensures
        text_nodes(text, contents, 0).len() == 0,
        text_nodes(text, contents, n + 1) == after_span(
            text,
            n as int,
            text_nodes(text, contents, n),
            contents[n as int],
        ),
{
}

/// Every glyph of every span has one content, which is looked up for that glyph
/// in that span, with the rendering mode of the text and the configuration that
/// holds for all of it.
pub proof fn law_every_glyph_is_looked_up<G, X, C, S, R, H, O>(
    sources: GlyphSources<X, C, S, R, H, O>,
    text: Text,
    hinting: Option<FontHintingOptions>,
    fontdb: &Database,
    contents: Seq<Seq<GlyphContentView<G>>>,
    n: int,
    s: int,
    g: int,
) where
    X: Fn(ID) -> bool,
    C: Fn(ID, GlyphId, &Vec<FontVariation>) -> Option<G>,
    S: Fn(ID, GlyphId) -> Option<G>,
    R: Fn(BitmapGlyphKey) -> Option<BitmapImage>,
    H: Fn(ID, u32, Option<FontHintingOptions>, &Database) -> Option<FontHintingOptions>,
    O: Fn(ID, GlyphId, &Vec<FontVariation>, Option<GlyphHinting>) -> Option<tiny_skia_path::Path>,

    requires
        are_text_contents(sources, text, hinting, fontdb, contents, n),
        0 <= s < n,
    ensures
        contents.len() == n,
        contents[s].len() == text.layouted@[s].positioned_glyphs@.len(),
        0 <= g < contents[s].len() ==> resolves_to(
            sources,
            text.rendering_mode,
            text.layouted@[s],
            text.layouted@[s].positioned_glyphs@[g],
            hinting,
            fontdb,
            contents[s][g],
        ),
{
    assert(are_contents(
        sources,
        text,
        s,
        hinting,
        fontdb,
        contents[s],
        text.layouted@[s].positioned_glyphs@.len() as int,
    ));
}

} // verus!
