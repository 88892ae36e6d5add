//! Drawing areas: a pixel rectangle with an attached coordinate system.
//! Layout (splitting, margins, shrinking, titles) yields sub-areas whose
//! coordinate system is a shift anchored at their own origin; drawing maps
//! logical points through the attached system and clamps them to the area.
use crate::backend::{DrawOp, DrawingBackend, DrawingErrorKind};
use crate::coord::{CoordTranslate, Shift};
use crate::element::{drew_prefix, truncate_spec, CoordMapper, Drawable, PointCollection};
use crate::rect::{
    clamp_i32, clamp_int, even_cell, grid_bounds, lemma_grid_bounds_no_breaks,
    lemma_grid_bounds_sorted, lemma_split_evenly_tiles, max_int, min_int, saturate_i32,
    BackendCoord, Rect,
};
use crate::size::SizeDesc;
use crate::style::{BackendStyle, RGBAColor};
use crate::text::{HPos, Pos, TextStyle, VPos};
use std::ops::Range;
use vstd::prelude::*;

verus! {

/// The error description of any drawing area API
#[derive(Debug)]
pub enum DrawingAreaError<E> {
    /// The error is due to drawing backend failure
    BackendError(DrawingErrorKind<E>),
    /// We are not able to get the mutable reference of the backend,
    /// which indicates the drawing backend is current used by other
    /// drawing operation
    SharingError,
    /// The error caused by invalid layout
    LayoutError,
}

/// The drawing area: a rectangle of the canvas and the coordinate system
/// attached to it. Its rectangle is always well formed.
#[derive(Debug)]
pub struct DrawingArea<CT> {
    rect: Rect,
    coord: CT,
}

impl<CT: Clone> Clone for DrawingArea<CT> {
    fn clone(&self) -> Self {
        proof {
            use_type_invariant(self);
        }
        DrawingArea { rect: self.rect, coord: self.coord.clone() }
    }
}

impl<CT: Copy> Copy for DrawingArea<CT> {

}

/// The rectangle `shrink` leaves: the offset moves the origin, the dimension
/// sets the size, and both are clamped into the parent rectangle.
pub open spec fn shrink_rect(r: Rect, ox: int, oy: int, w: int, h: int) -> Rect {
    let x0 = clamp_int(r.x0 + ox, r.x0 as int, r.x1 as int);
    let y0 = clamp_int(r.y0 + oy, r.y0 as int, r.y1 as int);
    Rect {
        x0: x0 as i32,
        y0: y0 as i32,
        x1: clamp_int(x0 + w, x0, r.x1 as int) as i32,
        y1: clamp_int(y0 + h, y0, r.y1 as int) as i32,
    }
}

/// The rectangle `margin` leaves: each side moves inward by its margin
/// (outward for a negative one); sides that would cross stop at each other.
pub open spec fn margin_rect(r: Rect, top: int, bottom: int, left: int, right: int) -> Rect {
    let x0 = min_int(clamp_i32(r.x0 + left), r.x1 as int);
    let y0 = min_int(clamp_i32(r.y0 + top), r.y1 as int);
    Rect {
        x0: x0 as i32,
        y0: y0 as i32,
        x1: max_int(clamp_i32(r.x1 - right), x0) as i32,
        y1: max_int(clamp_i32(r.y1 - bottom), y0) as i32,
    }
}

/// The padding above and below a title of height `h`: half the height,
/// at most 5 pixels.
pub open spec fn title_padding(h: int) -> int {
    min_int(h / 2, 5)
}

/// The rectangle left below a title band of text height `h`.
pub open spec fn title_rest(r: Rect, h: int) -> Rect {
    Rect { y0: min_int(r.y0 + 2 * title_padding(h) + h, r.y1 as int) as i32, ..r }
}

/// The split point of a split at `off` pixels from `lo`, kept within the span.
pub open spec fn split_point(lo: int, hi: int, off: int) -> int {
    clamp_int(lo + off, lo, hi)
}

/// A sub-area whose coordinate system is the shift to its own origin.
pub open spec fn shifted(a: DrawingArea<Shift>, r: Rect) -> bool {
    a.area_rect() == r && a.area_coord() == Shift((r.x0, r.y0))
}

/// Each size of `sizes` resolved against `dim`.
pub open spec fn sizes_in_pixels<S: SizeDesc>(sizes: Seq<S>, dim: (u32, u32)) -> Seq<i32> {
    sizes.map_values(|s: S| s.in_pixels_spec(dim))
}

/// The pixels the points of an element map to, through `coord` and clamped
/// to `rect`.
pub open spec fn mapped_points<CT: CoordTranslate, M: CoordMapper>(
    coord: CT,
    rect: Rect,
    points: Seq<CT::From>,
) -> Seq<M::Output> {
    points.map_values(
        |p: CT::From| M::assemble(truncate_spec(rect, coord.translate_spec(p)), coord.depth_spec(p)),
    )
}

/// Clamps `v` into `[lo, hi]` (for `lo <= hi`).
fn clamp_i64(v: i64, lo: i64, hi: i64) -> (r: i64)
    requires
        lo <= hi,
    ensures
        r == clamp_int(v as int, lo as int, hi as int),
{
    if v < lo {
        lo
    } else if v > hi {
        hi
    } else {
        v
    }
}

/// The dimension of a well-formed rectangle.
fn rect_dim(r: &Rect) -> (d: (u32, u32))
    requires
        r.wf(),
    ensures
        d.0 == r.x1 - r.x0,
        d.1 == r.y1 - r.y0,
{
    ((r.x1 as i64 - r.x0 as i64) as u32, (r.y1 as i64 - r.y0 as i64) as u32)
}

/// Hands a mutable borrow through.
fn coord_mut<CT>(c: &mut CT) -> (r: &mut CT)
    ensures
        *r == *old(c),
        *final(c) == *final(r),
    no_unwind
{
    c
}

/// Readies the backend, with its error as an area error.
fn prepare<DB: DrawingBackend>(backend: &mut DB) -> (r: Result<(), DrawingAreaError<DB::ErrorType>>)
    ensures
        final(backend).size_spec() == old(backend).size_spec(),
        final(backend).frame() == old(backend).frame(),
        forall|t: &str, s|
            #[trigger] final(backend).text_size_spec(t, s) == old(backend).text_size_spec(t, s),
        forall|t: &str, s|
            #[trigger] final(backend).text_measurable(t, s) == old(backend).text_measurable(t, s),
        final(backend).never_fails() == old(backend).never_fails(),
        old(backend).never_fails() ==> r is Ok,
        r matches Err(e) ==> e is BackendError,
        r is Ok ==> final(backend).prepared(),
        old(backend).prepared() ==> r is Ok && *final(backend) == *old(backend),
{
    match backend.ensure_prepared() {
        Ok(()) => Ok(()),
        Err(e) => Err(DrawingAreaError::BackendError(e)),
    }
}

impl<CT> DrawingArea<CT> {
    #[verifier::type_invariant]
    spec fn inv(&self) -> bool {
        self.rect.wf()
    }

    /// The area's rectangle on the canvas.
    pub closed spec fn area_rect(&self) -> Rect {
        self.rect
    }

    /// The coordinate system attached to the area.
    pub closed spec fn area_coord(&self) -> CT {
        self.coord
    }

    /// Get the left upper conner of this area in the drawing backend
    pub fn get_base_pixel(&self) -> (r: BackendCoord)
        ensures
            r == (self.area_rect().x0, self.area_rect().y0),
    {
        (self.rect.x0, self.rect.y0)
    }

    /// Strip the applied coordinate specification and returns a shift-based drawing area
    pub fn strip_coord_spec(&self) -> (r: DrawingArea<Shift>)
        ensures
            shifted(r, self.area_rect()),
    {
        proof {
            use_type_invariant(self);
        }
        DrawingArea { rect: self.rect, coord: Shift((self.rect.x0, self.rect.y0)) }
    }

    /// Strip the applied coordinate specification and returns a drawing area
    /// whose coordinates are the backend's own pixels
    pub fn use_screen_coord(&self) -> (r: DrawingArea<Shift>)
        ensures
            r.area_rect() == self.area_rect(),
            r.area_coord() == Shift((0, 0)),
    {
        proof {
            use_type_invariant(self);
        }
        DrawingArea { rect: self.rect, coord: Shift((0, 0)) }
    }

    /// Get the area dimension in pixel
    pub fn dim_in_pixel(&self) -> (r: (u32, u32))
        ensures
            r.0 == self.area_rect().x1 - self.area_rect().x0,
            r.1 == self.area_rect().y1 - self.area_rect().y0,
    {
        proof {
            use_type_invariant(self);
        }
        rect_dim(&self.rect)
    }

    /// Get the pixel range of this area
    pub fn get_pixel_range(&self) -> (r: (Range<i32>, Range<i32>))
        ensures
            r.0.start == self.area_rect().x0,
            r.0.end == self.area_rect().x1,
            r.1.start == self.area_rect().y0,
            r.1.end == self.area_rect().y1,
    {
        (self.rect.x0..self.rect.x1, self.rect.y0..self.rect.y1)
    }

    /// Fill the entire drawing area with a color
    pub fn fill<DB: DrawingBackend>(&self, backend: &mut DB, color: &RGBAColor) -> (r: Result<
        (),
        DrawingAreaError<DB::ErrorType>,
    >)
        ensures
            final(backend).size_spec() == old(backend).size_spec(),
            final(backend).never_fails() == old(backend).never_fails(),
            r matches Err(e) ==> e is BackendError,
            old(backend).never_fails() ==> r is Ok,
            r is Err ==> final(backend).frame() == old(backend).frame(),
            r is Ok ==> final(backend).prepared() && final(backend).frame() == old(
                backend,
            ).frame().push(
                DrawOp::Rect {
                    upper_left: (self.area_rect().x0, self.area_rect().y0),
                    bottom_right: (self.area_rect().x1, self.area_rect().y1),
                    style: BackendStyle { color: color.backend_spec(), stroke_width: 1 },
                    fill: true,
                },
            ),
    {
        prepare(backend)?;
        let style = BackendStyle::from_color(color.to_backend_color());
        match backend.draw_rect((self.rect.x0, self.rect.y0), (self.rect.x1, self.rect.y1), &style, true) {
            Ok(()) => Ok(()),
            Err(e) => Err(DrawingAreaError::BackendError(e)),
        }
    }

    /// Present all the pending changes to the backend
    pub fn present<DB: DrawingBackend>(&self, backend: &mut DB) -> (r: Result<
        (),
        DrawingAreaError<DB::ErrorType>,
    >)
        ensures
            final(backend).size_spec() == old(backend).size_spec(),
            final(backend).never_fails() == old(backend).never_fails(),
            r matches Err(e) ==> e is BackendError,
            old(backend).never_fails() ==> r is Ok,
            r is Ok ==> !final(backend).prepared() && final(backend).frame() == Seq::<
                DrawOp,
            >::empty(),
    {
        prepare(backend)?;
        match backend.present() {
            Ok(()) => Ok(()),
            Err(e) => Err(DrawingAreaError::BackendError(e)),
        }
    }

    /// Estimate the dimension of the text if drawn on this drawing area.
    pub fn estimate_text_size<DB: DrawingBackend>(
        &self,
        backend: &mut DB,
        text: &str,
        style: &TextStyle,
    ) -> (r: Result<(u32, u32), DrawingAreaError<DB::ErrorType>>)
        ensures
            final(backend).size_spec() == old(backend).size_spec(),
            final(backend).never_fails() == old(backend).never_fails(),
            r matches Err(e) ==> e is BackendError,
            old(backend).never_fails() ==> (r is Ok <==> old(backend).text_measurable(
                text,
                style.backend_spec().model(),
            )),
            final(backend).frame() == old(backend).frame(),
            forall|t: &str, s|
                #[trigger] final(backend).text_size_spec(t, s) == old(backend).text_size_spec(t, s),
            r is Ok ==> final(backend).prepared(),
            r matches Ok(s) ==> s == old(backend).text_size_spec(text, style.backend_spec().model()),
    {
        prepare(backend)?;
        match backend.estimate_text_size(text, &style.to_backend()) {
            Ok(s) => Ok(s),
            Err(e) => Err(DrawingAreaError::BackendError(e)),
        }
    }

    /// Returns the coordinates by value
    pub fn into_coord_spec(self) -> (r: CT)
        ensures
            r == self.area_coord(),
    {
        self.coord
    }

    /// Returns the coordinates by reference
    pub fn as_coord_spec(&self) -> (r: &CT)
        ensures
            *r == self.area_coord(),
    {
        &self.coord
    }

    /// Returns the coordinates by mutable reference
    pub fn as_coord_spec_mut(&mut self) -> (r: &mut CT)
        ensures
            *r == old(self).area_coord(),
            final(self).area_rect() == old(self).area_rect(),
            final(self).area_coord() == *final(r),
    {
        proof {
            use_type_invariant(&*self);
        }
        coord_mut(&mut self.coord)
    }
}

impl<CT: CoordTranslate> DrawingArea<CT> {
    /// Draw a single pixel
    pub fn draw_pixel<DB: DrawingBackend>(
        &self,
        backend: &mut DB,
        pos: &CT::From,
        color: &RGBAColor,
    ) -> (r: Result<(), DrawingAreaError<DB::ErrorType>>)
        ensures
            final(backend).size_spec() == old(backend).size_spec(),
            final(backend).never_fails() == old(backend).never_fails(),
            r matches Err(e) ==> e is BackendError,
            old(backend).never_fails() ==> r is Ok,
            r is Err ==> final(backend).frame() == old(backend).frame(),
            r is Ok ==> final(backend).prepared() && final(backend).frame() == old(
                backend,
            ).frame().push(
                DrawOp::Pixel {
                    point: self.area_coord().translate_spec(*pos),
                    color: color.backend_spec(),
                },
            ),
    {
        let p = self.coord.translate(pos);
        prepare(backend)?;
        match backend.draw_pixel(p, color.to_backend_color()) {
            Ok(()) => Ok(()),
            Err(e) => Err(DrawingAreaError::BackendError(e)),
        }
    }

    /// Map coordinate to the backend coordinate
    pub fn map_coordinate(&self, coord: &CT::From) -> (r: BackendCoord)
        ensures
            r == self.area_coord().translate_spec(*coord),
    {
        self.coord.translate(coord)
    }

    /// Draw an high-level element: its points are mapped through the
    /// coordinate system and clamped to the area, then it draws itself.
    pub fn draw<DB: DrawingBackend, M: CoordMapper, E: PointCollection<CT::From> + Drawable<M>>(
        &self,
        backend: &mut DB,
        element: &E,
    ) -> (r: Result<(), DrawingAreaError<DB::ErrorType>>)
        ensures
            final(backend).size_spec() == old(backend).size_spec(),
            final(backend).never_fails() == old(backend).never_fails(),
            r matches Err(e) ==> e is BackendError,
            old(backend).never_fails() ==> r is Ok,
            r is Err ==> final(backend).frame() == old(backend).frame() || drew_prefix(
                old(backend).frame(),
                final(backend).frame(),
                element.draw_ops(
                    mapped_points::<CT, M>(self.area_coord(), self.area_rect(), element.points_spec()),
                    self.area_rect(),
                    (
                        (self.area_rect().x1 - self.area_rect().x0) as u32,
                        (self.area_rect().y1 - self.area_rect().y0) as u32,
                    ),
                ),
            ),
            r is Ok ==> final(backend).prepared() && final(backend).frame() == old(
                backend,
            ).frame() + element.draw_ops(
                mapped_points::<CT, M>(self.area_coord(), self.area_rect(), element.points_spec()),
                self.area_rect(),
                (
                    (self.area_rect().x1 - self.area_rect().x0) as u32,
                    (self.area_rect().y1 - self.area_rect().y0) as u32,
                ),
            ),
    {
        let n = element.num_points();
        let mut pos: Vec<M::Output> = Vec::new();
        let mut i: usize = 0;
        while i < n
            invariant
                n == element.points_spec().len(),
                i <= n,
                pos@ == mapped_points::<CT, M>(
                    self.area_coord(),
                    self.area_rect(),
                    element.points_spec(),
                ).subrange(0, i as int),
            decreases n - i,
        {
            let p = M::map(&self.coord, element.point(i), &self.rect);
            pos.push(p);
            i = i + 1;
            proof {
                assert(pos@ =~= mapped_points::<CT, M>(
                    self.area_coord(),
                    self.area_rect(),
                    element.points_spec(),
                ).subrange(0, i as int));
            }
        }
        proof {
            assert(pos@ =~= mapped_points::<CT, M>(
                self.area_coord(),
                self.area_rect(),
                element.points_spec(),
            ));
        }
        let dim = self.dim_in_pixel();
        prepare(backend)?;
        match element.draw(&pos, &self.rect, backend, dim) {
            Ok(()) => Ok(()),
            Err(e) => Err(DrawingAreaError::BackendError(e)),
        }
    }
}

/// A backend that can be turned into a root drawing area.
pub trait ToDrawingArea: DrawingBackend {
    /// Convert the type into a root drawing area
    fn to_drawing_area(&self) -> (r: DrawingArea<Shift>)
        ensures
            shifted(r, root_rect(self.size_spec())),
    ;
}

/// The rectangle of the whole canvas of a backend of size `size`.
pub open spec fn root_rect(size: (u32, u32)) -> Rect {
    Rect { x0: 0, y0: 0, x1: clamp_i32(size.0 as int) as i32, y1: clamp_i32(size.1 as int) as i32 }
}

impl<T: DrawingBackend> ToDrawingArea for T {
    fn to_drawing_area(&self) -> DrawingArea<Shift> {
        DrawingArea::for_drawing_backend(self)
    }
}

impl DrawingArea<Shift> {
    /// The root area of a backend: its whole canvas.
    pub fn for_drawing_backend<DB: DrawingBackend>(backend: &DB) -> (r: DrawingArea<Shift>)
        ensures
            shifted(r, root_rect(backend.size_spec())),
    {
        let (w, h) = backend.get_size();
        let x1 = saturate_i32(w as i64);
        let y1 = saturate_i32(h as i64);
        DrawingArea { rect: Rect { x0: 0, y0: 0, x1, y1 }, coord: Shift((0, 0)) }
    }

    /// Shrink the region, note all the locations are in guest coordinate
    pub fn shrink<A: SizeDesc, B: SizeDesc, C: SizeDesc, D: SizeDesc>(
        self,
        left_upper: (A, B),
        dimension: (C, D),
    ) -> (r: DrawingArea<Shift>)
        ensures
            ({
                let d = self.dim_spec();
                shifted(
                    r,
                    shrink_rect(
                        self.area_rect(),
                        left_upper.0.in_pixels_spec(d) as int,
                        left_upper.1.in_pixels_spec(d) as int,
                        dimension.0.in_pixels_spec(d) as int,
                        dimension.1.in_pixels_spec(d) as int,
                    ),
                )
            }),
    {
        proof {
            use_type_invariant(&self);
        }
        let d = self.dim_in_pixel();
        let ox = left_upper.0.in_pixels(d);
        let oy = left_upper.1.in_pixels(d);
        let w = dimension.0.in_pixels(d);
        let h = dimension.1.in_pixels(d);
        let r = self.rect;
        let x0 = clamp_i64(r.x0 as i64 + ox as i64, r.x0 as i64, r.x1 as i64);
        let y0 = clamp_i64(r.y0 as i64 + oy as i64, r.y0 as i64, r.y1 as i64);
        let x1 = clamp_i64(x0 + w as i64, x0, r.x1 as i64);
        let y1 = clamp_i64(y0 + h as i64, y0, r.y1 as i64);
        let rect = Rect { x0: x0 as i32, y0: y0 as i32, x1: x1 as i32, y1: y1 as i32 };
        DrawingArea { rect, coord: Shift((rect.x0, rect.y0)) }
    }

    /// The sub-area at offset `pos` from the origin, of size `size`, kept
    /// within this area.
    pub fn place(&self, pos: (i32, i32), size: (u32, u32)) -> (r: DrawingArea<Shift>)
        ensures
            shifted(r, shrink_rect(self.area_rect(), pos.0 as int, pos.1 as int, size.0 as int, size.1 as int)),
    {
        proof {
            use_type_invariant(self);
        }
        let r = self.rect;
        let x0 = clamp_i64(r.x0 as i64 + pos.0 as i64, r.x0 as i64, r.x1 as i64);
        let y0 = clamp_i64(r.y0 as i64 + pos.1 as i64, r.y0 as i64, r.y1 as i64);
        let x1 = clamp_i64(x0 + size.0 as i64, x0, r.x1 as i64);
        let y1 = clamp_i64(y0 + size.1 as i64, y0, r.y1 as i64);
        let rect = Rect { x0: x0 as i32, y0: y0 as i32, x1: x1 as i32, y1: y1 as i32 };
        DrawingArea { rect, coord: Shift((rect.x0, rect.y0)) }
    }

    /// The dimension of the area, in pixels.
    pub open spec fn dim_spec(&self) -> (u32, u32) {
        (
            (self.area_rect().x1 - self.area_rect().x0) as u32,
            (self.area_rect().y1 - self.area_rect().y0) as u32,
        )
    }

    /// Apply a new coord transformation object and returns a new drawing area
    pub fn apply_coord_spec<CT>(&self, coord_spec: CT) -> (r: DrawingArea<CT>)
        ensures
            r.area_rect() == self.area_rect(),
            r.area_coord() == coord_spec,
    {
        proof {
            use_type_invariant(self);
        }
        DrawingArea { rect: self.rect, coord: coord_spec }
    }

    /// Create a margin for the given drawing area and returns the new drawing area
    pub fn margin<ST: SizeDesc, SB: SizeDesc, SL: SizeDesc, SR: SizeDesc>(
        &self,
        top: ST,
        bottom: SB,
        left: SL,
        right: SR,
    ) -> (r: DrawingArea<Shift>)
        ensures
            ({
                let d = self.dim_spec();
                shifted(
                    r,
                    margin_rect(
                        self.area_rect(),
                        top.in_pixels_spec(d) as int,
                        bottom.in_pixels_spec(d) as int,
                        left.in_pixels_spec(d) as int,
                        right.in_pixels_spec(d) as int,
                    ),
                )
            }),
    {
        proof {
            use_type_invariant(self);
        }
        let d = self.dim_in_pixel();
        let left = left.in_pixels(d);
        let right = right.in_pixels(d);
        let top = top.in_pixels(d);
        let bottom = bottom.in_pixels(d);
        let r = self.rect;
        let sx0 = saturate_i32(r.x0 as i64 + left as i64);
        let sy0 = saturate_i32(r.y0 as i64 + top as i64);
        let sx1 = saturate_i32(r.x1 as i64 - right as i64);
        let sy1 = saturate_i32(r.y1 as i64 - bottom as i64);
        let x0 = if sx0 < r.x1 {
            sx0
        } else {
            r.x1
        };
        let y0 = if sy0 < r.y1 {
            sy0
        } else {
            r.y1
        };
        let x1 = if sx1 > x0 {
            sx1
        } else {
            x0
        };
        let y1 = if sy1 > y0 {
            sy1
        } else {
            y0
        };
        let rect = Rect { x0, y0, x1, y1 };
        DrawingArea { rect, coord: Shift((x0, y0)) }
    }

    /// Split the drawing area vertically: the upper part is `y` pixels high
    /// (as far as the area reaches).
    pub fn split_vertically<S: SizeDesc>(&self, y: S) -> (r: (DrawingArea<Shift>, DrawingArea<Shift>))
        ensures
            ({
                let a = self.area_rect();
                let p = split_point(a.y0 as int, a.y1 as int, y.in_pixels_spec(self.dim_spec()) as int) as i32;
                shifted(r.0, Rect { y1: p, ..a }) && shifted(r.1, Rect { y0: p, ..a })
            }),
    {
        proof {
            use_type_invariant(self);
        }
        let y = y.in_pixels(self.dim_in_pixel());
        let p = clamp_i64(self.rect.y0 as i64 + y as i64, self.rect.y0 as i64, self.rect.y1 as i64) as i32;
        let parts = self.rect.split(&vec![p], true);
        let upper = parts[0];
        let lower = parts[1];
        (
            DrawingArea { rect: upper, coord: Shift((upper.x0, upper.y0)) },
            DrawingArea { rect: lower, coord: Shift((lower.x0, lower.y0)) },
        )
    }

    /// Split the drawing area horizontally: the left part is `x` pixels wide
    /// (as far as the area reaches).
    pub fn split_horizontally<S: SizeDesc>(&self, x: S) -> (r: (DrawingArea<Shift>, DrawingArea<Shift>))
        ensures
            ({
                let a = self.area_rect();
                let p = split_point(a.x0 as int, a.x1 as int, x.in_pixels_spec(self.dim_spec()) as int) as i32;
                shifted(r.0, Rect { x1: p, ..a }) && shifted(r.1, Rect { x0: p, ..a })
            }),
    {
        proof {
            use_type_invariant(self);
        }
        let x = x.in_pixels(self.dim_in_pixel());
        let p = clamp_i64(self.rect.x0 as i64 + x as i64, self.rect.x0 as i64, self.rect.x1 as i64) as i32;
        let parts = self.rect.split(&vec![p], false);
        let left = parts[0];
        let right = parts[1];
        (
            DrawingArea { rect: left, coord: Shift((left.x0, left.y0)) },
            DrawingArea { rect: right, coord: Shift((right.x0, right.y0)) },
        )
    }

    /// Split the drawing area evenly into a `row` x `col` mesh, row by row.
    pub fn split_evenly(&self, shape: (usize, usize)) -> (r: Vec<DrawingArea<Shift>>)
        requires
            shape.0 * shape.1 <= usize::MAX,
        ensures
            r.len() == shape.0 * shape.1,
            forall|ri: int, ci: int|
                0 <= ri < shape.0 && 0 <= ci < shape.1 ==> shifted(
                    #[trigger] r[ri * shape.1 + ci],
                    even_cell(self.area_rect(), shape.0 as int, shape.1 as int, ri, ci),
                ),
    {
        proof {
            use_type_invariant(self);
        }
        let (row, col) = shape;
        let cells = self.rect.split_evenly(shape);
        if row == 0 || col == 0 {
            proof {
                assert(row * col == 0) by (nonlinear_arith)
                    requires
                        row == 0 || col == 0,
                ;
            }
            return Vec::new();
        }
        proof {
            lemma_split_evenly_tiles(self.rect, row as int, col as int);
            assert forall|t: int| 0 <= t < cells.len() implies (#[trigger] cells[t]).wf() by {
                let ri = t / col as int;
                let ci = t % col as int;
                assert(t == ri * col + ci && 0 <= ri < row && 0 <= ci < col) by (nonlinear_arith)
                    requires
                        ri == t / col as int,
                        ci == t % col as int,
                        0 < col,
                        0 <= t < row * col,
                ;
                assert(cells[ri * col + ci] == even_cell(self.rect, row as int, col as int, ri, ci));
            }
        }
        let ret = areas_of(&cells);
        proof {
            assert forall|ri: int, ci: int| 0 <= ri < row && 0 <= ci < col implies shifted(
                #[trigger] ret[ri * col + ci],
                even_cell(self.rect, row as int, col as int, ri, ci),
            ) by {
                assert(0 <= ri * col + ci < row * col) by (nonlinear_arith)
                    requires
                        0 <= ri < row,
                        0 <= ci < col,
                ;
            }
        }
        ret
    }

    /// Split the drawing area into a grid at the given offsets from its
    /// origin along x and along y. Offsets outside the area are dropped, the
    /// others sorted and deduplicated; cells come row by row. Without
    /// offsets the only cell is the area itself.
    pub fn split_by_breakpoints<XS: SizeDesc, YS: SizeDesc>(&self, xs: &[XS], ys: &[YS]) -> (r: Vec<
        DrawingArea<Shift>,
    >)
        ensures
            exists|xb: Seq<i32>, yb: Seq<i32>|
                {
                    &&& #[trigger] grid_bounds(
                        xb,
                        self.area_rect().x0 as int,
                        self.area_rect().x1 as int,
                        sizes_in_pixels(xs@, self.dim_spec()),
                    )
                    &&& #[trigger] grid_bounds(
                        yb,
                        self.area_rect().y0 as int,
                        self.area_rect().y1 as int,
                        sizes_in_pixels(ys@, self.dim_spec()),
                    )
                    &&& r.len() == (yb.len() - 1) * (xb.len() - 1)
                    &&& forall|j: int, i: int|
                        0 <= j < yb.len() - 1 && 0 <= i < xb.len() - 1 ==> shifted(
                            #[trigger] r[j * (xb.len() - 1) + i],
                            Rect { x0: xb[i], y0: yb[j], x1: xb[i + 1], y1: yb[j + 1] },
                        )
                },
            xs.len() == 0 && ys.len() == 0 ==> r.len() == 1 && shifted(r[0], self.area_rect()),
    {
        proof {
            use_type_invariant(self);
        }
        let d = self.dim_in_pixel();
        let xpx = resolve_sizes(xs, d);
        let ypx = resolve_sizes(ys, d);
        let cells = self.rect.split_grid(&xpx, &ypx);
        let ghost (xb, yb) = choose|xb: Seq<i32>, yb: Seq<i32>|
            {
                &&& #[trigger] grid_bounds(xb, self.rect.x0 as int, self.rect.x1 as int, xpx@)
                &&& #[trigger] grid_bounds(yb, self.rect.y0 as int, self.rect.y1 as int, ypx@)
                &&& cells.len() == (yb.len() - 1) * (xb.len() - 1)
                &&& forall|j: int, i: int|
                    0 <= j < yb.len() - 1 && 0 <= i < xb.len() - 1 ==> #[trigger] cells[j * (xb.len()
                        - 1) + i] == (Rect { x0: xb[i], y0: yb[j], x1: xb[i + 1], y1: yb[j + 1] })
            };
        let ghost nx = xb.len() - 1;
        let ghost ny = yb.len() - 1;
        assert(nx >= 1 && ny >= 1);
        proof {
            lemma_grid_bounds_sorted(xb, self.rect.x0 as int, self.rect.x1 as int, xpx@);
            lemma_grid_bounds_sorted(yb, self.rect.y0 as int, self.rect.y1 as int, ypx@);
        }
        proof {
            assert forall|t: int| 0 <= t < cells.len() implies (#[trigger] cells[t]).wf() by {
                let j = t / nx;
                let i = t % nx;
                assert(t == j * nx + i && 0 <= j < ny && 0 <= i < nx) by (nonlinear_arith)
                    requires
                        j == t / nx,
                        i == t % nx,
                        0 < nx,
                        0 <= t < ny * nx,
                ;
                assert(cells[j * nx + i] == (Rect { x0: xb[i], y0: yb[j], x1: xb[i + 1], y1: yb[j + 1] }));
                assert(xb[i] <= xb[i + 1]);
                assert(yb[j] <= yb[j + 1]);
            }
        }
        let ret = areas_of(&cells);
        proof {
            assert(xs@.len() == xpx@.len());
            assert(sizes_in_pixels(xs@, self.dim_spec()) =~= xpx@);
            assert(sizes_in_pixels(ys@, self.dim_spec()) =~= ypx@);
            assert forall|j: int, i: int| 0 <= j < ny && 0 <= i < nx implies shifted(
                #[trigger] ret[j * nx + i],
                Rect { x0: xb[i], y0: yb[j], x1: xb[i + 1], y1: yb[j + 1] },
            ) by {
                assert(0 <= j * nx + i < ny * nx) by (nonlinear_arith)
                    requires
                        0 <= j < ny,
                        0 <= i < nx,
                ;
            }
            if xs.len() == 0 && ys.len() == 0 {
                lemma_grid_bounds_no_breaks(xb, self.rect.x0 as int, self.rect.x1 as int);
                lemma_grid_bounds_no_breaks(yb, self.rect.y0 as int, self.rect.y1 as int);
                assert(xpx@ =~= Seq::<i32>::empty());
                assert(ypx@ =~= Seq::<i32>::empty());
                assert(nx == 1 && ny == 1);
                assert(ny * nx == 1) by (nonlinear_arith)
                    requires
                        nx == 1,
                        ny == 1,
                ;
                assert(cells.len() == 1);
                assert(0 * nx + 0 == 0);
                assert(cells[0] == (Rect { x0: xb[0], y0: yb[0], x1: xb[1], y1: yb[1] }));
                assert(cells[0] == self.rect);
            }
        }
        ret
    }

    /// Draw a title of the drawing area and return the remaining drawing
    /// area: the text is centered at the top, padded above and below by half
    /// its height (at most 5 pixels), and the rest lies below the band.
    pub fn titled<DB: DrawingBackend>(&self, backend: &mut DB, text: &str, style: &TextStyle) -> (r:
        Result<DrawingArea<Shift>, DrawingAreaError<DB::ErrorType>>)
        ensures
            final(backend).size_spec() == old(backend).size_spec(),
            final(backend).never_fails() == old(backend).never_fails(),
            r matches Err(e) ==> e is BackendError,
            old(backend).never_fails() && old(backend).text_measurable(
                text,
                style.backend_spec().model(),
            ) ==> r is Ok,
            r is Err ==> final(backend).frame() == old(backend).frame(),
            r matches Ok(a) ==> {
                let h0 = old(backend).text_size_spec(text, style.backend_spec().model()).1 as int;
                let rr = self.area_rect();
                &&& shifted(a, title_rest(rr, h0))
                &&& final(backend).prepared()
                &&& final(backend).frame() == old(backend).frame().push(
                    DrawOp::Text {
                        text: text@,
                        text_style: (TextStyle {
                            pos: Pos { h_pos: HPos::Center, v_pos: VPos::Top },
                            ..*style
                        }).backend_spec().model(),
                        pos: (
                            (rr.x0 + (rr.x1 - rr.x0) / 2) as i32,
                            clamp_i32(rr.y0 + title_padding(h0)) as i32,
                        ),
                    },
                )
            },
    {
        proof {
            use_type_invariant(self);
        }
        let r = self.rect;
        let x_padding: i64 = (r.x1 as i64 - r.x0 as i64) / 2;
        let (_, text_h) = self.estimate_text_size(backend, text, style)?;
        let y_padding: i64 = if text_h / 2 < 5 {
            (text_h / 2) as i64
        } else {
            5
        };
        let centered = style.pos(Pos::new(HPos::Center, VPos::Top));
        prepare(backend)?;
        let anchor = ((r.x0 as i64 + x_padding) as i32, saturate_i32(r.y0 as i64 + y_padding));
        match backend.draw_text(text, &centered.to_backend(), anchor) {
            Ok(()) => {},
            Err(e) => {
                return Err(DrawingAreaError::BackendError(e));
            },
        }
        let band: i64 = r.y0 as i64 + y_padding * 2 + text_h as i64;
        let y0: i32 = if band < r.y1 as i64 {
            band as i32
        } else {
            r.y1
        };
        let rest = Rect { x0: r.x0, y0, x1: r.x1, y1: r.y1 };
        Ok(DrawingArea { rect: rest, coord: Shift((r.x0, y0)) })
    }

    /// Draw text at `pos`, relative to the area's origin.
    pub fn draw_text<DB: DrawingBackend>(
        &self,
        backend: &mut DB,
        text: &str,
        style: &TextStyle,
        pos: BackendCoord,
    ) -> (r: Result<(), DrawingAreaError<DB::ErrorType>>)
        ensures
            final(backend).size_spec() == old(backend).size_spec(),
            final(backend).never_fails() == old(backend).never_fails(),
            r matches Err(e) ==> e is BackendError,
            old(backend).never_fails() ==> r is Ok,
            r is Err ==> final(backend).frame() == old(backend).frame(),
            r is Ok ==> final(backend).prepared() && final(backend).frame() == old(
                backend,
            ).frame().push(
                DrawOp::Text {
                    text: text@,
                    text_style: style.backend_spec().model(),
                    pos: Shift((self.area_rect().x0, self.area_rect().y0)).translate_spec(pos),
                },
            ),
    {
        let at = Shift((self.rect.x0, self.rect.y0)).translate(&pos);
        prepare(backend)?;
        match backend.draw_text(text, &style.to_backend(), at) {
            Ok(()) => Ok(()),
            Err(e) => Err(DrawingAreaError::BackendError(e)),
        }
    }
}

/// The sub-areas of well-formed rectangles, each shifted to its own origin.
fn areas_of(cells: &Vec<Rect>) -> (r: Vec<DrawingArea<Shift>>)
    requires
        forall|t: int| 0 <= t < cells.len() ==> (#[trigger] cells[t]).wf(),
    ensures
        r.len() == cells.len(),
        forall|t: int| 0 <= t < cells.len() ==> shifted(#[trigger] r[t], cells[t]),
{
    let mut ret: Vec<DrawingArea<Shift>> = Vec::new();
    let mut k: usize = 0;
    while k < cells.len()
        invariant
            forall|t: int| 0 <= t < cells.len() ==> (#[trigger] cells[t]).wf(),
            k <= cells.len(),
            ret.len() == k,
            forall|t: int| 0 <= t < k ==> shifted(#[trigger] ret[t], cells[t]),
        decreases cells.len() - k,
    {
        let c = cells[k];
        ret.push(DrawingArea { rect: c, coord: Shift((c.x0, c.y0)) });
        k = k + 1;
    }
    ret
}

/// Resolves each size against `dim`.
fn resolve_sizes<S: SizeDesc>(sizes: &[S], dim: (u32, u32)) -> (r: Vec<i32>)
    ensures
        r@ == sizes_in_pixels(sizes@, dim),
{
    let mut r: Vec<i32> = Vec::new();
    let mut i: usize = 0;
    while i < sizes.len()
        invariant
            i <= sizes@.len(),
            r@ == sizes_in_pixels(sizes@, dim).subrange(0, i as int),
        decreases sizes@.len() - i,
    {
        r.push(sizes[i].in_pixels(dim));
        i = i + 1;
        proof {
            assert(r@ =~= sizes_in_pixels(sizes@, dim).subrange(0, i as int));
        }
    }
    proof {
        assert(r@ =~= sizes_in_pixels(sizes@, dim));
    }
    r
}

/// `shrink` never leaves its parent: whatever the offset and dimension, the
/// resulting rectangle is well formed and lies within the parent rectangle.
pub proof fn lemma_shrink_within(r: Rect, ox: int, oy: int, w: int, h: int)
    requires
        r.wf(),
    ensures
        shrink_rect(r, ox, oy, w, h).wf(),
        shrink_rect(r, ox, oy, w, h).within(r),
{
}

/// A margin never gives a negative size; with margins that are not negative
/// the result lies within the rectangle; and where the margins fit the
/// rectangle (top + bottom within its height, left + right within its
/// width), the margin by the opposite amounts restores it exactly.
pub proof fn lemma_margin_round_trip(r: Rect, top: int, bottom: int, left: int, right: int)
    requires
        r.wf(),
    ensures
        margin_rect(r, top, bottom, left, right).wf(),
        0 <= top && 0 <= bottom && 0 <= left && 0 <= right ==> margin_rect(
            r,
            top,
            bottom,
            left,
            right,
        ).within(r),
        0 <= top && 0 <= bottom && 0 <= left && 0 <= right && top + bottom <= r.y1 - r.y0 && left
            + right <= r.x1 - r.x0 ==> margin_rect(
            margin_rect(r, top, bottom, left, right),
            -top,
            -bottom,
            -left,
            -right,
        ) == r,
{
}

} // verus!
