//! Element composition: a uniform, erased form for the built-in elements,
//! and compound elements made of pixel-space parts placed around an anchor.
use crate::backend::{DrawOp, DrawingBackend, DrawingErrorKind};
use crate::coord::{CoordTranslate, Shift};
use crate::element::{
    lemma_stopped_inside, truncate_spec, BackendCoordOnly, Drawable, PointCollection,
};
use crate::points::{Cross, TriangleMarker};
use crate::rect::{BackendCoord, Rect};
use crate::text_elem::Text;
use vstd::prelude::*;

verus! {

/// The container for an element of any of the built-in kinds, so that
/// elements of different kinds can be kept and drawn as one sequence.
pub enum DynElement<'a, Coord> {
    Cross(Cross<Coord, i32>),
    Triangle(TriangleMarker<Coord, i32>),
    Text(Text<'a, Coord>),
}

impl<'a, Coord> PointCollection<Coord> for DynElement<'a, Coord> {
    open spec fn points_spec(&self) -> Seq<Coord> {
        match self {
            DynElement::Cross(e) => e.points_spec(),
            DynElement::Triangle(e) => e.points_spec(),
            DynElement::Text(e) => e.points_spec(),
        }
    }

    fn num_points(&self) -> usize {
        match self {
            DynElement::Cross(e) => e.num_points(),
            DynElement::Triangle(e) => e.num_points(),
            DynElement::Text(e) => e.num_points(),
        }
    }

    fn point(&self, i: usize) -> &Coord {
        match self {
            DynElement::Cross(e) => e.point(i),
            DynElement::Triangle(e) => e.point(i),
            DynElement::Text(e) => e.point(i),
        }
    }
}

impl<'a, Coord> Drawable<BackendCoordOnly> for DynElement<'a, Coord> {
    /// What the element inside draws.
    open spec fn draw_ops(&self, pos: Seq<BackendCoord>, clip: Rect, parent_dim: (u32, u32)) -> Seq<DrawOp> {
        match self {
            DynElement::Cross(e) => e.draw_ops(pos, clip, parent_dim),
            DynElement::Triangle(e) => e.draw_ops(pos, clip, parent_dim),
            DynElement::Text(e) => e.draw_ops(pos, clip, parent_dim),
        }
    }

    fn draw<DB: DrawingBackend>(&self, pos: &Vec<BackendCoord>, clip: &Rect, backend: &mut DB, parent_dim: (u32, u32)) -> Result<
        (),
        DrawingErrorKind<DB::ErrorType>,
    > {
        match self {
            DynElement::Cross(e) => e.draw(pos, clip, backend, parent_dim),
            DynElement::Triangle(e) => e.draw(pos, clip, backend, parent_dim),
            DynElement::Text(e) => e.draw(pos, clip, backend, parent_dim),
        }
    }
}

/// The conversion from a built-in element to the erased form.
pub trait IntoDynElement<'a, Coord>: Sized {
    /// The erased form of the element.
    spec fn dyn_spec(self) -> DynElement<'a, Coord>;

    /// Make the conversion
    fn into_dyn(self) -> (r: DynElement<'a, Coord>)
        ensures
            r == self.dyn_spec(),
    ;
}

impl<'a, Coord> IntoDynElement<'a, Coord> for Cross<Coord, i32> {
    open spec fn dyn_spec(self) -> DynElement<'a, Coord> {
        DynElement::Cross(self)
    }

    fn into_dyn(self) -> DynElement<'a, Coord> {
        DynElement::Cross(self)
    }
}

impl<'a, Coord> IntoDynElement<'a, Coord> for TriangleMarker<Coord, i32> {
    open spec fn dyn_spec(self) -> DynElement<'a, Coord> {
        DynElement::Triangle(self)
    }

    fn into_dyn(self) -> DynElement<'a, Coord> {
        DynElement::Triangle(self)
    }
}

impl<'a, Coord> IntoDynElement<'a, Coord> for Text<'a, Coord> {
    open spec fn dyn_spec(self) -> DynElement<'a, Coord> {
        DynElement::Text(self)
    }

    fn into_dyn(self) -> DynElement<'a, Coord> {
        DynElement::Text(self)
    }
}

/// A compound element: an anchor in the guest coordinate system and parts
/// whose points are pixel offsets from the anchor's pixel.
pub struct ComposedElement<'a, Coord> {
    pub elements: Vec<DynElement<'a, BackendCoord>>,
    pub offset: Coord,
}

/// The pixels `points` land on when shifted by `anchor` and clamped to
/// `clip`.
pub open spec fn shifted_points(points: Seq<BackendCoord>, anchor: BackendCoord, clip: Rect) -> Seq<
    BackendCoord,
> {
    points.map_values(|p: BackendCoord| truncate_spec(clip, Shift(anchor).translate_spec(p)))
}

/// The primitives that `parts` issue around the anchor pixel, in order.
pub open spec fn parts_ops(
    parts: Seq<DynElement<BackendCoord>>,
    anchor: BackendCoord,
    clip: Rect,
    parent_dim: (u32, u32),
) -> Seq<DrawOp>
    decreases parts.len(),
{
    if parts.len() == 0 {
        Seq::empty()
    } else {
        parts_ops(parts.drop_last(), anchor, clip, parent_dim) + parts.last().draw_ops(
            shifted_points(parts.last().points_spec(), anchor, clip),
            clip,
            parent_dim,
        )
    }
}

/// The primitives of the first `j` parts begin those of all the parts.
proof fn lemma_parts_ops_prefix(
    parts: Seq<DynElement<BackendCoord>>,
    anchor: BackendCoord,
    clip: Rect,
    parent_dim: (u32, u32),
    j: int,
)
    requires
        0 <= j <= parts.len(),
    ensures
        parts_ops(parts.subrange(0, j), anchor, clip, parent_dim).len() <= parts_ops(
            parts,
            anchor,
            clip,
            parent_dim,
        ).len(),
        parts_ops(parts, anchor, clip, parent_dim).subrange(
            0,
            parts_ops(parts.subrange(0, j), anchor, clip, parent_dim).len() as int,
        ) == parts_ops(parts.subrange(0, j), anchor, clip, parent_dim),
    decreases parts.len(),
{
    let all = parts_ops(parts, anchor, clip, parent_dim);
    if j == parts.len() {
        assert(parts.subrange(0, j) =~= parts);
        assert(all.subrange(0, all.len() as int) =~= all);
    } else {
        let dl = parts.drop_last();
        lemma_parts_ops_prefix(dl, anchor, clip, parent_dim, j);
        assert(dl.subrange(0, j) =~= parts.subrange(0, j));
        let p = parts_ops(parts.subrange(0, j), anchor, clip, parent_dim);
        assert(all.subrange(0, p.len() as int) =~= parts_ops(dl, anchor, clip, parent_dim).subrange(
            0,
            p.len() as int,
        ));
    }
}

impl<'a, Coord> ComposedElement<'a, Coord> {
    /// An empty composable element anchored at `coord`: the starting point
    /// of a composed element.
    pub fn at(coord: Coord) -> (r: ComposedElement<'a, Coord>)
        ensures
            r.elements@.len() == 0,
            r.offset == coord,
    {
        ComposedElement { elements: Vec::new(), offset: coord }
    }

    /// Append a part, placed in pixels relative to the anchor.
    pub fn add(self, rhs: DynElement<'a, BackendCoord>) -> (r: ComposedElement<'a, Coord>)
        ensures
            r.elements@ == self.elements@.push(rhs),
            r.offset == self.offset,
    {
        let mut s = self;
        s.elements.push(rhs);
        s
    }
}

impl<'a, Coord> PointCollection<Coord> for ComposedElement<'a, Coord> {
    open spec fn points_spec(&self) -> Seq<Coord> {
        seq![self.offset]
    }

    fn num_points(&self) -> usize {
        1
    }

    fn point(&self, i: usize) -> &Coord {
        &self.offset
    }
}

/// The points of a part, shifted by the anchor pixel and clamped to `clip`.
fn shift_points(e: &DynElement<BackendCoord>, anchor: BackendCoord, clip: &Rect) -> (r: Vec<BackendCoord>)
    ensures
        r@ == shifted_points(e.points_spec(), anchor, *clip),
{
    let n = e.num_points();
    let sh = Shift(anchor);
    let mut r: Vec<BackendCoord> = Vec::new();
    let mut i: usize = 0;
    while i < n
        invariant
            n == e.points_spec().len(),
            sh == Shift(anchor),
            i <= n,
            r@ == shifted_points(e.points_spec(), anchor, *clip).subrange(0, i as int),
        decreases n - i,
    {
        r.push(clip.truncate(sh.translate(e.point(i))));
        i = i + 1;
        proof {
            assert(r@ =~= shifted_points(e.points_spec(), anchor, *clip).subrange(0, i as int));
        }
    }
    proof {
        assert(r@ =~= shifted_points(e.points_spec(), anchor, *clip));
    }
    r
}

impl<'a, Coord> Drawable<BackendCoordOnly> for ComposedElement<'a, Coord> {
    /// Each part in order, with its points shifted by the anchor pixel and
    /// clamped to the area.
    open spec fn draw_ops(&self, pos: Seq<BackendCoord>, clip: Rect, parent_dim: (u32, u32)) -> Seq<DrawOp> {
        if pos.len() == 0 {
            Seq::empty()
        } else {
            parts_ops(self.elements@, pos[0], clip, parent_dim)
        }
    }

    fn draw<DB: DrawingBackend>(&self, pos: &Vec<BackendCoord>, clip: &Rect, backend: &mut DB, parent_dim: (u32, u32)) -> Result<
        (),
        DrawingErrorKind<DB::ErrorType>,
    > {
        if pos.len() == 0 {
            proof {
                assert(old(backend).frame() + Seq::<DrawOp>::empty() =~= old(backend).frame());
            }
            return Ok(());
        }
        let anchor = pos[0];
        let mut i: usize = 0;
        proof {
            assert(self.elements@.subrange(0, 0) =~= Seq::<DynElement<BackendCoord>>::empty());
            assert(old(backend).frame() + Seq::<DrawOp>::empty() =~= old(backend).frame());
        }
        while i < self.elements.len()
            invariant
                anchor == pos@[0],
                pos@.len() > 0,
                i <= self.elements.len(),
                backend.prepared(),
                backend.size_spec() == old(backend).size_spec(),
                backend.never_fails() == old(backend).never_fails(),
                backend.frame() == old(backend).frame() + parts_ops(
                    self.elements@.subrange(0, i as int),
                    anchor,
                    *clip,
                    parent_dim,
                ),
            decreases self.elements.len() - i,
        {
            let e = &self.elements[i];
            let pts = shift_points(e, anchor, clip);
            let ghost before = backend.frame();
            let r = e.draw(&pts, clip, backend, parent_dim);
            proof {
                let done = parts_ops(self.elements@.subrange(0, i as int), anchor, *clip, parent_dim);
                let cur = self.elements@.subrange(0, i + 1);
                let step = e.draw_ops(pts@, *clip, parent_dim);
                assert(cur.drop_last() =~= self.elements@.subrange(0, i as int));
                assert(parts_ops(cur, anchor, *clip, parent_dim) == done + step);
                if r is Err {
                    let all = self.draw_ops(pos@, *clip, parent_dim);
                    lemma_parts_ops_prefix(self.elements@, anchor, *clip, parent_dim, i + 1);
                    let k = choose|k: int| 0 <= k < step.len() && backend.frame() == before + step.subrange(0, k);
                    lemma_stopped_inside(old(backend).frame(), done, step, all, k);
                    assert(backend.frame() =~= old(backend).frame() + done + step.subrange(0, k));
                } else {
                    assert(backend.frame() =~= old(backend).frame() + parts_ops(cur, anchor, *clip, parent_dim));
                }
            }
            if r.is_err() {
                return r;
            }
            i = i + 1;
        }
        proof {
            assert(self.elements@.subrange(0, self.elements.len() as int) =~= self.elements@);
        }
        Ok(())
    }
}

} // verus!
