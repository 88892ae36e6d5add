//! Point markers: a cross and a filled triangle around a center.
use crate::backend::{DrawOp, DrawingBackend, DrawingErrorKind};
use crate::element::{lemma_stopped_at, BackendCoordOnly, Drawable, PointCollection};
use crate::rect::{clamp_i32, saturate_i32, BackendCoord, Rect};
use crate::size::SizeDesc;
use crate::style::{BackendStyle, ShapeStyle};
use vstd::prelude::*;

verus! {

/// Elements that can be made from a position, a size and a style.
pub trait PointElement<Coord, Size: SizeDesc>: Sized {
    /// Point creator.
    fn make_point(pos: Coord, size: Size, style: ShapeStyle) -> Self;
}

/// A cross marker for visualizing data series.
pub struct Cross<Coord, Size: SizeDesc> {
    pub center: Coord,
    pub size: Size,
    pub style: ShapeStyle,
}

impl<Coord, Size: SizeDesc> Cross<Coord, Size> {
    /// Creates a cross marker.
    pub fn new(coord: Coord, size: Size, style: ShapeStyle) -> (r: Cross<Coord, Size>)
        ensures
            r.center == coord,
            r.size == size,
            r.style == style,
    {
        Cross { center: coord, size, style }
    }
}

/// `a + b` saturated to `i32`.
pub open spec fn sat_add(a: int, b: int) -> i32 {
    clamp_i32(a + b) as i32
}

/// The pixel `(x + dx, y + dy)`, each coordinate saturated to `i32`.
pub open spec fn offset(p: BackendCoord, dx: int, dy: int) -> BackendCoord {
    (sat_add(p.0 as int, dx), sat_add(p.1 as int, dy))
}

/// Moves `p` by `(dx, dy)`, saturating.
pub fn offset_point(p: BackendCoord, dx: i64, dy: i64) -> (r: BackendCoord)
    requires
        -0x1_0000_0000 <= dx <= 0x1_0000_0000,
        -0x1_0000_0000 <= dy <= 0x1_0000_0000,
    ensures
        r == offset(p, dx as int, dy as int),
{
    (saturate_i32(p.0 as i64 + dx), saturate_i32(p.1 as i64 + dy))
}

impl<Coord, Size: SizeDesc> PointCollection<Coord> for Cross<Coord, Size> {
    open spec fn points_spec(&self) -> Seq<Coord> {
        seq![self.center]
    }

    fn num_points(&self) -> usize {
        1
    }

    fn point(&self, i: usize) -> &Coord {
        &self.center
    }
}

impl<Coord, Size: SizeDesc> Drawable<BackendCoordOnly> for Cross<Coord, Size> {
    /// Two diagonal lines through the center, `size` pixels from it along
    /// each axis.
    open spec fn draw_ops(&self, pos: Seq<BackendCoord>, clip: Rect, parent_dim: (u32, u32)) -> Seq<DrawOp> {
        if pos.len() == 0 {
            Seq::empty()
        } else {
            let p = pos[0];
            let s = self.size.in_pixels_spec(parent_dim) as int;
            let style = self.style.backend_spec();
            seq![
                DrawOp::Line { from: offset(p, -s, -s), to: offset(p, s, s), style },
                DrawOp::Line { from: offset(p, -s, s), to: offset(p, s, -s), style },
            ]
        }
    }

    fn draw<DB: DrawingBackend>(&self, pos: &Vec<BackendCoord>, clip: &Rect, backend: &mut DB, parent_dim: (u32, u32)) -> Result<
        (),
        DrawingErrorKind<DB::ErrorType>,
    > {
        if pos.len() == 0 {
            proof {
                assert(old(backend).frame() + Seq::<DrawOp>::empty() =~= old(backend).frame());
            }
            return Ok(());
        }
        let p = pos[0];
        let s = self.size.in_pixels(parent_dim) as i64;
        let style = self.style.to_backend_style();
        let ghost ops = self.draw_ops(pos@, *clip, parent_dim);
        match backend.draw_line(offset_point(p, -s, -s), offset_point(p, s, s), &style) {
            Ok(()) => {},
            Err(e) => {
                proof {
                    lemma_stopped_at(old(backend).frame(), ops, 0);
                    assert(backend.frame() =~= old(backend).frame() + ops.subrange(0, 0));
                }
                return Err(e);
            },
        }
        let r = backend.draw_line(offset_point(p, -s, s), offset_point(p, s, -s), &style);
        proof {
            if r is Ok {
                assert(backend.frame() =~= old(backend).frame() + ops);
            } else {
                lemma_stopped_at(old(backend).frame(), ops, 1);
                assert(ops.subrange(0, ops.len() as int) =~= ops);
                assert(backend.frame() =~= old(backend).frame() + ops.subrange(0, 1));
            }
        }
        r
    }
}

/// A triangle marker for visualizing data series.
pub struct TriangleMarker<Coord, Size: SizeDesc> {
    pub center: Coord,
    pub size: Size,
    pub style: ShapeStyle,
}

impl<Coord, Size: SizeDesc> TriangleMarker<Coord, Size> {
    /// Creates a triangle marker.
    pub fn new(coord: Coord, size: Size, style: ShapeStyle) -> (r: TriangleMarker<Coord, Size>)
        ensures
            r.center == coord,
            r.size == size,
            r.style == style,
    {
        TriangleMarker { center: coord, size, style }
    }
}

/// `k` is the floor of `s * sqrt(3) / 2`, for `s >= 0`.
pub open spec fn is_sqrt3_half_floor(s: int, k: int) -> bool {
    0 <= k && 4 * k * k <= 3 * s * s < 4 * (k + 1) * (k + 1)
}

/// The floor of `s * sqrt(3) / 2`, for `s >= 0`.
pub open spec fn sqrt3_half_floor(s: int) -> int {
    choose|k: int| is_sqrt3_half_floor(s, k)
}

/// The ceiling of `s * sqrt(3) / 2`, for any `s`.
pub open spec fn sqrt3_half_ceil(s: int) -> int {
    if s > 0 {
        sqrt3_half_floor(s) + 1
    } else {
        -sqrt3_half_floor(-s)
    }
}

/// The floor of `s * sqrt(3) / 2`, for any `s`.
pub open spec fn sqrt3_half_floor_signed(s: int) -> int {
    if s >= 0 {
        sqrt3_half_floor(s)
    } else {
        -(sqrt3_half_floor(-s) + 1)
    }
}

/// The ceiling of `s / 2`.
pub open spec fn half_ceil(s: int) -> int {
    if s >= 0 {
        (s + 1) / 2
    } else {
        -((-s) / 2)
    }
}

/// The vertices of a triangle marker of size `s` around `p`: the points at
/// -90, -210 and -330 degrees on the circle of radius `s`, each coordinate
/// rounded up to a whole pixel (and saturated to `i32`).
pub open spec fn triangle_vertices(p: BackendCoord, s: int) -> Seq<BackendCoord> {
    seq![
        offset(p, 0, -s),
        offset(p, -sqrt3_half_floor_signed(s), half_ceil(s)),
        offset(p, sqrt3_half_ceil(s), half_ceil(s)),
    ]
}

/// There is one floor of `s * sqrt(3) / 2`.
proof fn lemma_sqrt3_half_floor_unique(s: int, k: int)
    requires
        0 <= s,
        is_sqrt3_half_floor(s, k),
    ensures
        sqrt3_half_floor(s) == k,
{
    let c = sqrt3_half_floor(s);
    assert(is_sqrt3_half_floor(s, c));
    if c < k {
        assert(4 * (c + 1) * (c + 1) <= 4 * k * k) by (nonlinear_arith)
            requires
                0 <= c,
                c + 1 <= k,
        ;
    } else if k < c {
        assert(4 * (k + 1) * (k + 1) <= 4 * c * c) by (nonlinear_arith)
            requires
                0 <= k,
                k + 1 <= c,
        ;
    }
}

/// The floor of `s * sqrt(3) / 2`, by bisection.
fn sqrt3_half(s: u64) -> (k: u64)
    requires
        s <= u32::MAX,
    ensures
        is_sqrt3_half_floor(s as int, k as int),
        sqrt3_half_floor(s as int) == k,
{
    proof {
        assert(3 * s * s <= 3 * (u32::MAX as int) * (u32::MAX as int)) by (nonlinear_arith)
            requires
                0 <= s <= u32::MAX,
        ;
    }
    let t: u128 = 3 * (s as u128) * (s as u128);
    let mut lo: u64 = 0;
    let mut hi: u64 = s + 1;
    proof {
        assert(3 * s * s < 4 * (s + 1) * (s + 1)) by (nonlinear_arith)
            requires
                0 <= s,
        ;
    }
    while lo + 1 < hi
        invariant
            s <= u32::MAX,
            t == 3 * s * s,
            lo < hi <= s + 1,
            4 * lo * lo <= t,
            t < 4 * hi * hi,
        decreases hi - lo,
    {
        let mid: u64 = lo + (hi - lo) / 2;
        proof {
            assert(4 * mid * mid <= 4 * (u32::MAX as int + 1) * (u32::MAX as int + 1)) by (nonlinear_arith)
                requires
                    0 <= mid <= s + 1,
                    s <= u32::MAX,
            ;
        }
        if 4 * (mid as u128) * (mid as u128) <= t {
            lo = mid;
        } else {
            hi = mid;
        }
    }
    proof {
        assert(is_sqrt3_half_floor(s as int, lo as int));
        lemma_sqrt3_half_floor_unique(s as int, lo as int);
    }
    lo
}

impl<Coord, Size: SizeDesc> PointCollection<Coord> for TriangleMarker<Coord, Size> {
    open spec fn points_spec(&self) -> Seq<Coord> {
        seq![self.center]
    }

    fn num_points(&self) -> usize {
        1
    }

    fn point(&self, i: usize) -> &Coord {
        &self.center
    }
}

impl<Coord, Size: SizeDesc> Drawable<BackendCoordOnly> for TriangleMarker<Coord, Size> {
    /// One filled triangle in the marker's color, one pixel wide.
    open spec fn draw_ops(&self, pos: Seq<BackendCoord>, clip: Rect, parent_dim: (u32, u32)) -> Seq<DrawOp> {
        if pos.len() == 0 {
            Seq::empty()
        } else {
            seq![
                DrawOp::Polygon {
                    vert: triangle_vertices(pos[0], self.size.in_pixels_spec(parent_dim) as int),
                    style: BackendStyle { color: self.style.color.backend_spec(), stroke_width: 1 },
                },
            ]
        }
    }

    fn draw<DB: DrawingBackend>(&self, pos: &Vec<BackendCoord>, clip: &Rect, backend: &mut DB, parent_dim: (u32, u32)) -> Result<
        (),
        DrawingErrorKind<DB::ErrorType>,
    > {
        if pos.len() == 0 {
            proof {
                assert(old(backend).frame() + Seq::<DrawOp>::empty() =~= old(backend).frame());
            }
            return Ok(());
        }
        let p = pos[0];
        let s = self.size.in_pixels(parent_dim) as i64;
        let a: u64 = if s >= 0 {
            s as u64
        } else {
            (-s) as u64
        };
        let fu = sqrt3_half(a);
        proof {
            assert(fu <= a) by (nonlinear_arith)
                requires
                    4 * fu * fu <= 3 * a * a,
                    0 <= fu,
                    0 <= a,
            ;
        }
        let f = fu as i64;
        let (lower, upper): (i64, i64) = if s > 0 {
            (f, f + 1)
        } else if s == 0 {
            (0, 0)
        } else {
            (-(f + 1), -f)
        };
        let half: i64 = if s >= 0 {
            (s + 1) / 2
        } else {
            -((-s) / 2)
        };
        let top = offset_point(p, 0, -s);
        let left = offset_point(p, -lower, half);
        let right = offset_point(p, upper, half);
        let vert = vec![top, left, right];
        let style = BackendStyle::from_color(self.style.color.to_backend_color());
        proof {
            if s == 0 {
                assert(is_sqrt3_half_floor(0, 0));
                lemma_sqrt3_half_floor_unique(0, 0);
            }
            assert(vert@ =~= triangle_vertices(p, s as int));
        }
        let r = backend.fill_polygon(vert.as_slice(), &style);
        proof {
            let ops = self.draw_ops(pos@, *clip, parent_dim);
            if r is Ok {
                assert(backend.frame() =~= old(backend).frame() + ops);
            } else {
                assert(ops.subrange(0, ops.len() as int) =~= ops);
                lemma_stopped_at(old(backend).frame(), ops, 0);
                assert(backend.frame() =~= old(backend).frame() + ops.subrange(0, 0));
            }
        }
        r
    }
}

impl<Coord, Size: SizeDesc> PointElement<Coord, Size> for Cross<Coord, Size> {
    fn make_point(pos: Coord, size: Size, style: ShapeStyle) -> Self {
        Cross::new(pos, size, style)
    }
}

impl<Coord, Size: SizeDesc> PointElement<Coord, Size> for TriangleMarker<Coord, Size> {
    fn make_point(pos: Coord, size: Size, style: ShapeStyle) -> Self {
        TriangleMarker::new(pos, size, style)
    }
}

} // verus!
