//! A 2D Cartesian coordinate system over integer ranges: each axis maps its
//! logical range linearly onto a pixel range.
use crate::area::DrawingArea;
use crate::coord::CoordTranslate;
use crate::rect::BackendCoord;
use std::ops::Range;
use vstd::prelude::*;

verus! {

/// A logical axis that maps its values onto a pixel range.
pub trait Ranged {
    /// The type of the values on the axis
    type ValueType;

    /// The pixel `v` maps to when the axis spans the pixels `limit`.
    spec fn map_spec(&self, v: Self::ValueType, limit: (i32, i32)) -> i32;

    /// The first and last value of the axis.
    spec fn bounds_spec(&self) -> (Self::ValueType, Self::ValueType);

    /// Map a value onto the pixel range `limit`.
    fn map(&self, v: &Self::ValueType, limit: (i32, i32)) -> (r: i32)
        ensures
            r == self.map_spec(*v, limit),
    ;

    /// The range of the axis.
    fn range(&self) -> (r: Range<Self::ValueType>)
        ensures
            (r.start, r.end) == self.bounds_spec(),
    ;
}

/// `a / w` rounded down, for `w != 0`.
pub open spec fn floor_div(a: int, w: int) -> int {
    if w > 0 {
        a / w
    } else {
        (-a) / (-w)
    }
}

/// Where value `v` of the logical span from `s` to `e` lands on the pixel
/// span `limit`: `limit.0` plus the proportional share of the pixel span,
/// rounded down in size; `limit.0` itself for an empty logical span.
pub open spec fn linear_map(v: int, s: int, e: int, limit: (i32, i32)) -> int {
    let len = limit.1 - limit.0;
    if e == s {
        limit.0 as int
    } else if len >= 0 {
        limit.0 + floor_div(len * (v - s), e - s)
    } else {
        limit.0 - floor_div((-len) * (v - s), e - s)
    }
}

/// `a / w` rounded down.
fn floor_div_exec(a: i128, w: i128) -> (r: i128)
    requires
        w != 0,
        -0x10_0000_0000_0000_0000 <= a <= 0x10_0000_0000_0000_0000,
        -0x10_0000_0000 <= w <= 0x10_0000_0000,
    ensures
        r == floor_div(a as int, w as int),
        -0x10_0000_0000_0000_0001 <= r <= 0x10_0000_0000_0000_0001,
{
    let (n, m) = if w < 0 {
        (-a, -w)
    } else {
        (a, w)
    };
    proof {
        assert(floor_div(a as int, w as int) == (n as int) / (m as int));
        lemma_div_bounds(n as int, m as int);
    }
    if n >= 0 {
        n / m
    } else {
        let t = (-n + m - 1) / m;
        proof {
            let q = (n as int) / (m as int);
            let r = (n as int) % (m as int);
            vstd::arithmetic::div_mod::lemma_fundamental_div_mod(n as int, m as int);
            assert(-n + m - 1 == (-q) * m + (m - 1 - r)) by (nonlinear_arith)
                requires
                    n == m * q + r,
            ;
            vstd::arithmetic::div_mod::lemma_fundamental_div_mod_converse(
                -n + m - 1,
                m as int,
                -q,
                m - 1 - r,
            );
        }
        -t
    }
}

/// The linear map of a wide value, saturated to `i32`.
fn linear_map_exec(v: i64, s: i64, e: i64, limit: (i32, i32)) -> (r: i32)
    requires
        i32::MIN <= s <= u32::MAX,
        i32::MIN <= e <= u32::MAX,
        i32::MIN <= v <= u32::MAX,
    ensures
        r as int == crate::rect::clamp_i32(linear_map(v as int, s as int, e as int, limit)),
{
    let len: i128 = limit.1 as i128 - limit.0 as i128;
    let d: i128 = v as i128 - s as i128;
    let w: i128 = e as i128 - s as i128;
    if w == 0 {
        return limit.0;
    }
    proof {
        assert(-0x2_0000_0000 * 0x2_0000_0000 <= len * d <= 0x2_0000_0000 * 0x2_0000_0000) by (nonlinear_arith)
            requires
                -0x1_0000_0000 <= len <= 0x1_0000_0000,
                -0x2_0000_0000 <= d <= 0x2_0000_0000,
        ;
        assert(-0x2_0000_0000 * 0x2_0000_0000 <= (-len) * d <= 0x2_0000_0000 * 0x2_0000_0000) by (nonlinear_arith)
            requires
                -0x1_0000_0000 <= len <= 0x1_0000_0000,
                -0x2_0000_0000 <= d <= 0x2_0000_0000,
        ;
    }
    let off: i128 = if len >= 0 {
        floor_div_exec(len * d, w)
    } else {
        -floor_div_exec((-len) * d, w)
    };
    let total: i128 = limit.0 as i128 + off;
    if total < i32::MIN as i128 {
        i32::MIN
    } else if total > i32::MAX as i128 {
        i32::MAX
    } else {
        total as i32
    }
}

/// A quotient is no larger in size than its dividend.
proof fn lemma_div_bounds(a: int, b: int)
    requires
        b != 0,
    ensures
        -(if a >= 0 { a } else { -a }) - 1 <= a / b <= (if a >= 0 { a } else { -a }) + 1,
{
    if b > 0 {
        assert(a / b <= if a >= 0 { a } else { 0 }) by (nonlinear_arith)
            requires
                b > 0,
        ;
        assert(a / b >= if a >= 0 { 0 } else { a - 1 }) by (nonlinear_arith)
            requires
                b > 0,
        ;
    } else {
        assert(a / b <= if a >= 0 { 0 } else { -a + 1 }) by (nonlinear_arith)
            requires
                b < 0,
        ;
        assert(a / b >= if a >= 0 { -a - 1 } else { 0 }) by (nonlinear_arith)
            requires
                b < 0,
        ;
    }
}

/// An axis of `i32` values from `start` to `end`.
#[derive(Clone, Copy, Debug, PartialEq, Eq, Structural)]
pub struct RangedCoordi32 {
    pub start: i32,
    pub end: i32,
}

/// An axis of `u32` values from `start` to `end`.
#[derive(Clone, Copy, Debug, PartialEq, Eq, Structural)]
pub struct RangedCoordu32 {
    pub start: u32,
    pub end: u32,
}

impl RangedCoordi32 {
    /// The axis over `r`.
    pub fn new(r: Range<i32>) -> (a: RangedCoordi32)
        ensures
            a == (RangedCoordi32 { start: r.start, end: r.end }),
    {
        RangedCoordi32 { start: r.start, end: r.end }
    }
}

impl RangedCoordu32 {
    /// The axis over `r`.
    pub fn new(r: Range<u32>) -> (a: RangedCoordu32)
        ensures
            a == (RangedCoordu32 { start: r.start, end: r.end }),
    {
        RangedCoordu32 { start: r.start, end: r.end }
    }
}

impl Ranged for RangedCoordi32 {
    type ValueType = i32;

    open spec fn map_spec(&self, v: i32, limit: (i32, i32)) -> i32 {
        crate::rect::clamp_i32(linear_map(v as int, self.start as int, self.end as int, limit)) as i32
    }

    open spec fn bounds_spec(&self) -> (i32, i32) {
        (self.start, self.end)
    }

    fn map(&self, v: &i32, limit: (i32, i32)) -> i32 {
        linear_map_exec(*v as i64, self.start as i64, self.end as i64, limit)
    }

    fn range(&self) -> Range<i32> {
        self.start..self.end
    }
}

impl Ranged for RangedCoordu32 {
    type ValueType = u32;

    open spec fn map_spec(&self, v: u32, limit: (i32, i32)) -> i32 {
        crate::rect::clamp_i32(linear_map(v as int, self.start as int, self.end as int, limit)) as i32
    }

    open spec fn bounds_spec(&self) -> (u32, u32) {
        (self.start, self.end)
    }

    fn map(&self, v: &u32, limit: (i32, i32)) -> i32 {
        linear_map_exec(*v as i64, self.start as i64, self.end as i64, limit)
    }

    fn range(&self) -> Range<u32> {
        self.start..self.end
    }
}

/// The 2D Cartesian coordinate system: x runs left to right over the pixel
/// range of x, y runs bottom to top over the pixel range of y.
pub struct Cartesian2d<X: Ranged, Y: Ranged> {
    pub logic_x: X,
    pub logic_y: Y,
    pub back_x: (i32, i32),
    pub back_y: (i32, i32),
}

impl<X: Ranged, Y: Ranged> Cartesian2d<X, Y> {
    /// The coordinate system of axes `logic_x` and `logic_y` over the pixel
    /// ranges `actual.0` (x) and `actual.1` (y, flipped so values grow upward).
    pub fn new(logic_x: X, logic_y: Y, actual: (Range<i32>, Range<i32>)) -> (r: Cartesian2d<X, Y>)
        ensures
            r.logic_x == logic_x,
            r.logic_y == logic_y,
            r.back_x == (actual.0.start, actual.0.end),
            r.back_y == (actual.1.end, actual.1.start),
    {
        Cartesian2d {
            logic_x,
            logic_y,
            back_x: (actual.0.start, actual.0.end),
            back_y: (actual.1.end, actual.1.start),
        }
    }

    /// Get the range of X axis
    pub fn get_x_range(&self) -> (r: Range<X::ValueType>)
        ensures
            (r.start, r.end) == self.logic_x.bounds_spec(),
    {
        self.logic_x.range()
    }

    /// Get the range of Y axis
    pub fn get_y_range(&self) -> (r: Range<Y::ValueType>)
        ensures
            (r.start, r.end) == self.logic_y.bounds_spec(),
    {
        self.logic_y.range()
    }

    /// The pixel range of the x axis
    pub fn get_x_axis_pixel_range(&self) -> (r: Range<i32>)
        ensures
            r.start == min_i32(self.back_x.0, self.back_x.1),
            r.end == max_i32(self.back_x.0, self.back_x.1),
    {
        if self.back_x.0 <= self.back_x.1 {
            self.back_x.0..self.back_x.1
        } else {
            self.back_x.1..self.back_x.0
        }
    }

    /// The pixel range of the y axis
    pub fn get_y_axis_pixel_range(&self) -> (r: Range<i32>)
        ensures
            r.start == min_i32(self.back_y.0, self.back_y.1),
            r.end == max_i32(self.back_y.0, self.back_y.1),
    {
        if self.back_y.0 <= self.back_y.1 {
            self.back_y.0..self.back_y.1
        } else {
            self.back_y.1..self.back_y.0
        }
    }
}

/// The smaller of two pixels.
pub open spec fn min_i32(a: i32, b: i32) -> i32 {
    if a <= b {
        a
    } else {
        b
    }
}

/// The larger of two pixels.
pub open spec fn max_i32(a: i32, b: i32) -> i32 {
    if a <= b {
        b
    } else {
        a
    }
}

impl<X: Ranged, Y: Ranged> CoordTranslate for Cartesian2d<X, Y> {
    type From = (X::ValueType, Y::ValueType);

    open spec fn translate_spec(&self, from: (X::ValueType, Y::ValueType)) -> BackendCoord {
        (self.logic_x.map_spec(from.0, self.back_x), self.logic_y.map_spec(from.1, self.back_y))
    }

    open spec fn depth_spec(&self, from: (X::ValueType, Y::ValueType)) -> i32 {
        0
    }

    fn translate(&self, from: &(X::ValueType, Y::ValueType)) -> BackendCoord {
        (self.logic_x.map(&from.0, self.back_x), self.logic_y.map(&from.1, self.back_y))
    }

    fn depth(&self, from: &(X::ValueType, Y::ValueType)) -> i32 {
        0
    }
}

impl<X: Ranged, Y: Ranged> DrawingArea<Cartesian2d<X, Y>> {
    /// Get the range of X of the guest coordinate for current drawing area
    pub fn get_x_range(&self) -> (r: Range<X::ValueType>)
        ensures
            (r.start, r.end) == self.area_coord().logic_x.bounds_spec(),
    {
        self.as_coord_spec().get_x_range()
    }

    /// Get the range of Y of the guest coordinate for current drawing area
    pub fn get_y_range(&self) -> (r: Range<Y::ValueType>)
        ensures
            (r.start, r.end) == self.area_coord().logic_y.bounds_spec(),
    {
        self.as_coord_spec().get_y_range()
    }

    /// Get the range of X of the backend coordinate for current drawing area
    pub fn get_x_axis_pixel_range(&self) -> (r: Range<i32>)
        ensures
            r.start == min_i32(self.area_coord().back_x.0, self.area_coord().back_x.1),
            r.end == max_i32(self.area_coord().back_x.0, self.area_coord().back_x.1),
    {
        self.as_coord_spec().get_x_axis_pixel_range()
    }

    /// Get the range of Y of the backend coordinate for current drawing area
    pub fn get_y_axis_pixel_range(&self) -> (r: Range<i32>)
        ensures
            r.start == min_i32(self.area_coord().back_y.0, self.area_coord().back_y.1),
            r.end == max_i32(self.area_coord().back_y.0, self.area_coord().back_y.1),
    {
        self.as_coord_spec().get_y_axis_pixel_range()
    }
}

} // verus!
