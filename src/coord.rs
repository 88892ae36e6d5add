//! Coordinate systems: from a logical coordinate to a backend pixel,
//! with a depth for 3D ordering, and optionally back.
use crate::rect::{clamp_i32, saturate_i32, BackendCoord};
use vstd::prelude::*;

verus! {

/// A coordinate system: maps a logical coordinate to a backend pixel
pub trait CoordTranslate {
    /// The logical coordinate type
    type From;

    /// The pixel that `from` maps to.
    spec fn translate_spec(&self, from: Self::From) -> BackendCoord;

    /// The depth (Z-value) of `from`; 0 for planar coordinate systems.
    spec fn depth_spec(&self, from: Self::From) -> i32;

    /// Map the logical coordinate to its backend pixel
    fn translate(&self, from: &Self::From) -> (r: BackendCoord)
        ensures
            r == self.translate_spec(*from),
    ;

    /// Get the Z-value of current coordinate
    fn depth(&self, from: &Self::From) -> (r: i32)
        ensures
            r == self.depth_spec(*from),
    ;
}

/// The trait indicates that the coordinate system supports reverse transform
/// This is useful when we need an interactive plot, thus we need to map the event
/// from the backend coordinate to the logical coordinate
pub trait ReverseCoordTranslate: CoordTranslate {
    /// The logical coordinate of a pixel, if it has one.
    spec fn reverse_spec(&self, input: BackendCoord) -> Option<Self::From>;

    /// Map a backend pixel back to the
    /// logic coordinate. `None` where the pixel has no logical coordinate.
    fn reverse_translate(&self, input: BackendCoord) -> (r: Option<Self::From>)
        ensures
            r == self.reverse_spec(input),
    ;
}

/// The trivial coordinate system: a pixel offset from the origin `.0`.
/// Mapping adds the offset, saturating at the bounds of `i32`.
#[derive(Clone, Copy, Debug, PartialEq, Eq)]
pub struct Shift(pub BackendCoord);

impl CoordTranslate for Shift {
    type From = BackendCoord;

    open spec fn translate_spec(&self, from: BackendCoord) -> BackendCoord {
        (
            clamp_i32(from.0 + self.0.0) as i32,
            clamp_i32(from.1 + self.0.1) as i32,
        )
    }

    open spec fn depth_spec(&self, from: BackendCoord) -> i32 {
        0
    }

    fn translate(&self, from: &BackendCoord) -> BackendCoord {
        (
            saturate_i32(from.0 as i64 + self.0.0 as i64),
            saturate_i32(from.1 as i64 + self.0.1 as i64),
        )
    }

    fn depth(&self, from: &BackendCoord) -> i32 {
        0
    }
}

impl ReverseCoordTranslate for Shift {
    open spec fn reverse_spec(&self, input: BackendCoord) -> Option<BackendCoord> {
        let x = input.0 - self.0.0;
        let y = input.1 - self.0.1;
        if i32::MIN <= x <= i32::MAX && i32::MIN <= y <= i32::MAX {
            Some((x as i32, y as i32))
        } else {
            None
        }
    }

    fn reverse_translate(&self, input: BackendCoord) -> Option<BackendCoord> {
        let x: i64 = input.0 as i64 - self.0.0 as i64;
        let y: i64 = input.1 as i64 - self.0.1 as i64;
        if i32::MIN as i64 <= x && x <= i32::MAX as i64 && i32::MIN as i64 <= y && y
            <= i32::MAX as i64 {
            Some((x as i32, y as i32))
        } else {
            None
        }
    }
}

} // verus!
