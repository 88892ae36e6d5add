//! Size descriptors: a size in pixels, or a percentage of the width, the
//! height or the smaller side of the area it is measured against.
use crate::rect::{clamp_i32, saturate_i32};
use vstd::prelude::*;

verus! {

/// A size that resolves to pixels against the dimension `(width, height)`
/// of an area.
pub trait SizeDesc {
    /// The size in pixels against `dim`.
    spec fn in_pixels_spec(&self, dim: (u32, u32)) -> i32;

    /// Resolve the size against the dimension of an area.
    fn in_pixels(&self, dim: (u32, u32)) -> (r: i32)
        ensures
            r == self.in_pixels_spec(dim),
    ;
}

impl SizeDesc for i32 {
    open spec fn in_pixels_spec(&self, dim: (u32, u32)) -> i32 {
        *self
    }

    fn in_pixels(&self, dim: (u32, u32)) -> i32 {
        *self
    }
}

/// A size relative to an area, in percent.
#[derive(Clone, Copy, Debug, PartialEq, Eq, Structural)]
pub enum RelativeSize {
    /// Percent of the height
    Height(i32),
    /// Percent of the width
    Width(i32),
    /// Percent of the smaller of width and height
    Smaller(i32),
}

/// `p` percent of `d`, rounded toward zero.
pub open spec fn percent_of(p: int, d: int) -> int {
    if p >= 0 {
        (p * d) / 100
    } else {
        -((-p * d) / 100)
    }
}

impl SizeDesc for RelativeSize {
    open spec fn in_pixels_spec(&self, dim: (u32, u32)) -> i32 {
        let (p, d) = match self {
            RelativeSize::Height(p) => (*p as int, dim.1 as int),
            RelativeSize::Width(p) => (*p as int, dim.0 as int),
            RelativeSize::Smaller(p) => (
                *p as int,
                if dim.0 <= dim.1 {
                    dim.0 as int
                } else {
                    dim.1 as int
                },
            ),
        };
        clamp_i32(percent_of(p, d)) as i32
    }

    fn in_pixels(&self, dim: (u32, u32)) -> i32 {
        let (p, d) = match self {
            RelativeSize::Height(p) => (*p, dim.1),
            RelativeSize::Width(p) => (*p, dim.0),
            RelativeSize::Smaller(p) => (
                *p,
                if dim.0 <= dim.1 {
                    dim.0
                } else {
                    dim.1
                },
            ),
        };
        let pp: i64 = p as i64;
        let dd: i64 = d as i64;
        proof {
            assert(-(u32::MAX as int) * (i32::MAX as int + 1) <= pp * dd <= (u32::MAX as int) * (
            i32::MAX as int + 1)) by (nonlinear_arith)
                requires
                    i32::MIN <= pp <= i32::MAX,
                    0 <= dd <= u32::MAX,
            ;
            if pp < 0 {
                assert(0 <= (-pp) * dd <= (u32::MAX as int) * (i32::MAX as int + 1)) by (nonlinear_arith)
                    requires
                        i32::MIN <= pp < 0,
                        0 <= dd <= u32::MAX,
                ;
            }
        }
        let v: i64 = if pp >= 0 {
            (pp * dd) / 100
        } else {
            -(((-pp) * dd) / 100)
        };
        saturate_i32(v)
    }
}

/// Integers as percentages of an area.
pub trait AsRelative {
    /// This many percent of the width
    fn percent_width(self) -> RelativeSize;

    /// This many percent of the height
    fn percent_height(self) -> RelativeSize;

    /// This many percent of the smaller side
    fn percent(self) -> RelativeSize;
}

impl AsRelative for i32 {
    fn percent_width(self) -> RelativeSize {
        RelativeSize::Width(self)
    }

    fn percent_height(self) -> RelativeSize {
        RelativeSize::Height(self)
    }

    fn percent(self) -> RelativeSize {
        RelativeSize::Smaller(self)
    }
}

} // verus!
