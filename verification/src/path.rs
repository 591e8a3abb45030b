//! Outlines, as tiny-skia keeps them.

use tiny_skia_path::{Path, PathBuilder, Transform};
use vstd::prelude::*;

verus! {

/// A finished path.
#[verifier::external_type_specification]
#[verifier::external_body]
pub struct ExPath(tiny_skia_path::Path);

/// A path under construction.
#[verifier::external_type_specification]
#[verifier::external_body]
pub struct ExPathBuilder(tiny_skia_path::PathBuilder);

/// An affine transformation: six single precision numbers.
#[verifier::external_type_specification]
pub struct ExTransform(tiny_skia_path::Transform);

/// The kinds of path segments.
pub enum Verb {
    Move,
    Line,
    Quad,
    Cubic,
    Close,
}

/// Names the segments of a path.
pub uninterp spec fn path_verbs(path: Path) -> Seq<Verb>;

/// Names the points of a path, by the bits of their coordinates. Here and below
/// all coordinates that are not a number count as one.
pub uninterp spec fn path_points(path: Path) -> Seq<(u32, u32)>;

/// Names the segments that a builder was given.
pub uninterp spec fn builder_verbs(builder: PathBuilder) -> Seq<Verb>;

/// Names the points that a builder was given, by the bits of their coordinates,
/// where all that are not a number count as one.
pub uninterp spec fn builder_points(builder: PathBuilder) -> Seq<(u32, u32)>;

/// Names whether tiny-skia finds bounds for points, by the bits of their
/// coordinates, where all that are not a number count as one. It does not for
/// those that are not finite or too far apart.
pub uninterp spec fn have_bounds(points: Seq<(u32, u32)>) -> bool;

/// Names where tiny-skia moves points to, by the bits of their coordinates, where
/// all that are not a number count as one, if it can bound them there.
pub uninterp spec fn mapped_points(points: Seq<(u32, u32)>, transform: Transform) -> Option<
    Seq<(u32, u32)>,
>;

/// Segments and their points.
#[verifier::ext_equal]
pub struct Outline {
    pub verbs: Seq<Verb>,
    pub points: Seq<(u32, u32)>,
}

impl Outline {
    /// No segments at all.
    pub open spec fn empty() -> Outline {
        Outline { verbs: Seq::empty(), points: Seq::empty() }
    }

    /// These segments, followed by the others.
    pub open spec fn followed_by(self, other: Outline) -> Outline {
        Outline { verbs: self.verbs + other.verbs, points: self.points + other.points }
    }

    /// Whether this makes a path: a lone move draws nothing, and every path has
    /// bounds.
    pub open spec fn is_drawable(self) -> bool {
        self.verbs.len() >= 2 && have_bounds(self.points)
    }
}

/// What a path holds.
pub open spec fn path_outline(path: Path) -> Outline {
    Outline { verbs: path_verbs(path), points: path_points(path) }
}

/// What a builder was given.
pub open spec fn builder_outline(builder: PathBuilder) -> Outline {
    Outline { verbs: builder_verbs(builder), points: builder_points(builder) }
}

/// `PathBuilder::new` of tiny-skia: a builder that was given nothing.
pub assume_specification[ tiny_skia_path::PathBuilder::new ]() -> (res: PathBuilder)
    ensures
        builder_verbs(res) == Seq::<Verb>::empty(),
        builder_points(res) == Seq::<(u32, u32)>::empty(),
;

/// `PathBuilder::push_path` of tiny-skia: appends the segments and the points of
/// a path as they are.
pub assume_specification[ tiny_skia_path::PathBuilder::push_path ](
    builder: &mut PathBuilder,
    other: &Path,
)
    ensures
        builder_verbs(*final(builder)) == builder_verbs(*old(builder)) + path_verbs(*other),
        builder_points(*final(builder)) == builder_points(*old(builder)) + path_points(*other),
;

/// `PathBuilder::finish` of tiny-skia: a path of what the builder was given, if
/// that is at least two segments and has bounds.
pub assume_specification[ tiny_skia_path::PathBuilder::finish ](builder: PathBuilder) -> (res: Option<
    Path,
>)
    ensures
        match res {
            Some(path) => {
                &&& builder_verbs(builder).len() >= 2 && have_bounds(builder_points(builder))
                &&& path_verbs(path) == builder_verbs(builder)
                &&& path_points(path) == builder_points(builder)
            },
            None => builder_verbs(builder).len() < 2 || !have_bounds(builder_points(builder)),
        },
;

/// `Path::transform` of tiny-skia: moves the points of a path and keeps its
/// segments. `None` when the points cannot be bounded any more.
pub assume_specification[ tiny_skia_path::Path::transform ](path: Path, ts: Transform) -> (res: Option<
    Path,
>)
    ensures
        match res {
            Some(moved) => {
                &&& mapped_points(path_points(path), ts) == Some(path_points(moved))
                &&& path_verbs(moved) == path_verbs(path)
            },
            None => mapped_points(path_points(path), ts) is None,
        },
;

/// What `path` holds, if there is one.
pub open spec fn outline_view(path: Option<Path>) -> Option<Outline> {
    match path {
        Some(path) => Some(path_outline(path)),
        None => None,
    }
}

/// An outline moved to its place.
pub open spec fn placed(outline: Option<Outline>, transform: Transform) -> Option<Outline> {
    match outline {
        Some(outline) => match mapped_points(outline.points, transform) {
            Some(points) => Some(Outline { verbs: outline.verbs, points }),
            None => None,
        },
        None => None,
    }
}

/// Moves an outline to its place.
pub fn place(outline: Option<Path>, transform: Transform) -> (res: Option<Path>)
    ensures
        outline_view(res) == placed(outline_view(outline), transform),
{
    match outline {
        Some(outline) => outline.transform(transform),
        None => None,
    }
}

/// Moving an outline moves its points and keeps its segments. Nothing is left of
/// one whose points cannot be moved, and nothing comes of none.
pub proof fn law_moving_keeps_the_segments(outline: Outline, transform: Transform)
    ensures
        placed(None, transform) is None,
        placed(Some(outline), transform) is Some <==> mapped_points(
            outline.points,
            transform,
        ) is Some,
        placed(Some(outline), transform) matches Some(moved) ==> moved.verbs == outline.verbs
            && mapped_points(outline.points, transform) == Some(moved.points),
{
}

/// What paths and builders are said to hold is what they hold. An outline makes
/// a path exactly if a builder that was given it finishes one.
pub proof fn law_outline_view_is_faithful(path: Path, builder: PathBuilder, a: Outline, b: Outline)
    ensures
        outline_view(None) is None,
        outline_view(Some(path)) matches Some(outline) && outline.verbs == path_verbs(path)
            && outline.points == path_points(path),
        builder_outline(builder).verbs == builder_verbs(builder),
        builder_outline(builder).points == builder_points(builder),
        a.followed_by(b).verbs == a.verbs + b.verbs,
        a.followed_by(b).points == a.points + b.points,
        Outline::empty().verbs.len() == 0,
        Outline::empty().points.len() == 0,
        a.is_drawable() <==> a.verbs.len() >= 2 && have_bounds(a.points),
{
}

} // verus!
