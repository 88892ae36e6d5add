//! The drawable-element protocol: an element exposes the logical points it
//! needs placed, and draws itself from the pixels they map to.
use crate::backend::{DrawOp, DrawingBackend, DrawingErrorKind};
use crate::coord::CoordTranslate;
use crate::rect::{max_int, min_int, BackendCoord, Rect};
use vstd::prelude::*;

verus! {

/// How the points of an element are mapped to backend pixels
pub trait CoordMapper {
    /// What a mapped point is
    type Output;

    /// The output for a point that maps to the (clamped) pixel `p` at depth `z`.
    spec fn assemble(p: BackendCoord, z: i32) -> Self::Output;

    /// Map a logical point through `coord_trans`:
    /// the pixel of `from`, clamped to `rect`, with its depth where the
    /// output keeps one.
    fn map<CT: CoordTranslate>(coord_trans: &CT, from: &CT::From, rect: &Rect) -> (r: Self::Output)
        ensures
            r == Self::assemble(
                truncate_spec(*rect, coord_trans.translate_spec(*from)),
                coord_trans.depth_spec(*from),
            ),
    ;
}

/// The pixel `p` clamped into `rect`.
pub open spec fn truncate_spec(rect: Rect, p: BackendCoord) -> BackendCoord {
    (
        max_int(min_int(p.0 as int, rect.x1 as int), rect.x0 as int) as i32,
        max_int(min_int(p.1 as int, rect.y1 as int), rect.y0 as int) as i32,
    )
}

/// Used for 2d coordinate transformations.
pub struct BackendCoordOnly;

impl CoordMapper for BackendCoordOnly {
    type Output = BackendCoord;

    open spec fn assemble(p: BackendCoord, z: i32) -> BackendCoord {
        p
    }

    fn map<CT: CoordTranslate>(coord_trans: &CT, from: &CT::From, rect: &Rect) -> BackendCoord {
        rect.truncate(coord_trans.translate(from))
    }
}

/// Used for 3d coordinate transformations: the clamped pixel and the depth.
pub struct BackendCoordAndZ;

impl CoordMapper for BackendCoordAndZ {
    type Output = (BackendCoord, i32);

    open spec fn assemble(p: BackendCoord, z: i32) -> (BackendCoord, i32) {
        (p, z)
    }

    fn map<CT: CoordTranslate>(coord_trans: &CT, from: &CT::From, rect: &Rect) -> (BackendCoord, i32) {
        let coord = rect.truncate(coord_trans.translate(from));
        let z = coord_trans.depth(from);
        (coord, z)
    }
}

/// The logical points an element needs placed.
pub trait PointCollection<Coord> {
    /// The points, in order.
    spec fn points_spec(&self) -> Seq<Coord>;

    /// The number of points
    fn num_points(&self) -> (r: usize)
        ensures
            r == self.points_spec().len(),
    ;

    /// The `i`-th point
    fn point(&self, i: usize) -> (r: &Coord)
        requires
            i < self.points_spec().len(),
        ensures
            *r == self.points_spec()[i as int],
    ;
}

/// The frame went from `pre` to `post` by a strict prefix of `ops`: a
/// drawing that stopped at its first failure.
pub open spec fn drew_prefix(pre: Seq<DrawOp>, post: Seq<DrawOp>, ops: Seq<DrawOp>) -> bool {
    exists|k: int| 0 <= k < ops.len() && post == pre + ops.subrange(0, k)
}

/// A drawing that stopped after the first `k` primitives of `ops` drew a
/// strict prefix of them.
pub proof fn lemma_stopped_at(pre: Seq<DrawOp>, ops: Seq<DrawOp>, k: int)
    requires
        0 <= k < ops.len(),
    ensures
        drew_prefix(pre, pre + ops.subrange(0, k), ops),
{
}

/// A drawing that completed `done`, which together with `step` begins
/// `all`, and then stopped inside `step` after `kk` primitives, drew a
/// strict prefix of `all`.
pub proof fn lemma_stopped_inside(
    pre: Seq<DrawOp>,
    done: Seq<DrawOp>,
    step: Seq<DrawOp>,
    all: Seq<DrawOp>,
    kk: int,
)
    requires
        done.len() + step.len() <= all.len(),
        all.subrange(0, (done.len() + step.len()) as int) == done + step,
        0 <= kk < step.len(),
    ensures
        drew_prefix(pre, pre + done + step.subrange(0, kk), all),
{
    let k = done.len() + kk;
    assert(all.subrange(0, k) =~= (done + step).subrange(0, k));
    assert(pre + done + step.subrange(0, kk) =~= pre + all.subrange(0, k));
}

/// The trait indicates we are able to draw it on a drawing area, from its
/// points mapped by `M`, within the clipping rectangle `clip`.
pub trait Drawable<M: CoordMapper> {
    /// The primitives the element issues for the mapped points `pos`, in an
    /// area of rectangle `clip` and dimension `parent_dim`.
    spec fn draw_ops(&self, pos: Seq<M::Output>, clip: Rect, parent_dim: (u32, u32)) -> Seq<DrawOp>;

    /// Actually draws the element: its primitives in order. The first
    /// failure stops the drawing and is returned.
    fn draw<DB: DrawingBackend>(
        &self,
        pos: &Vec<M::Output>,
        clip: &Rect,
        backend: &mut DB,
        parent_dim: (u32, u32),
    ) -> (r: Result<(), DrawingErrorKind<DB::ErrorType>>)
        requires
            old(backend).prepared(),
        ensures
            final(backend).size_spec() == old(backend).size_spec(),
            final(backend).never_fails() == old(backend).never_fails(),
            old(backend).never_fails() ==> r is Ok,
            r is Ok ==> final(backend).prepared() && final(backend).frame() == old(backend).frame()
                + self.draw_ops(pos@, *clip, parent_dim),
            r is Err ==> drew_prefix(
                old(backend).frame(),
                final(backend).frame(),
                self.draw_ops(pos@, *clip, parent_dim),
            ),
    ;
}

} // verus!
