//! Colors and shape styles as the drawing layer consumes them.
use vstd::prelude::*;

verus! {

/// The color type that is used by all the backends: an RGB triple and an
/// opacity from 0 (transparent) to 255 (opaque).
#[derive(Clone, Copy, Debug, PartialEq, Eq)]
pub struct BackendColor {
    pub alpha: u8,
    pub rgb: (u8, u8, u8),
}

/// The style data for the backend drawing API
#[derive(Clone, Copy, Debug, PartialEq, Eq)]
pub struct BackendStyle {
    /// The color of current style
    pub color: BackendColor,
    /// The stroke width of current style
    pub stroke_width: u32,
}

impl BackendStyle {
    /// A one-pixel stroke in the given color.
    pub fn from_color(color: BackendColor) -> (r: BackendStyle)
        ensures
            r == (BackendStyle { color, stroke_width: 1 }),
    {
        BackendStyle { color, stroke_width: 1 }
    }
}

/// A color with red, green, blue and opacity (0 transparent, 255 opaque).
#[derive(Clone, Copy, Debug, PartialEq, Eq, Structural)]
pub struct RGBAColor(pub u8, pub u8, pub u8, pub u8);

impl RGBAColor {
    /// The same color as the backend sees it.
    pub open spec fn backend_spec(&self) -> BackendColor {
        BackendColor { alpha: self.3, rgb: (self.0, self.1, self.2) }
    }

    /// Convert the color into the backend's color type.
    pub fn to_backend_color(&self) -> (r: BackendColor)
        ensures
            r == self.backend_spec(),
    {
        BackendColor { alpha: self.3, rgb: (self.0, self.1, self.2) }
    }
}

/// Style for any shape
#[derive(Clone, Copy, Debug, PartialEq, Eq)]
pub struct ShapeStyle {
    /// Specification of the color.
    pub color: RGBAColor,
    /// Whether the style is filled with color.
    pub filled: bool,
    /// Stroke width.
    pub stroke_width: u32,
}

impl ShapeStyle {
    /// An outline style of the given color, one pixel wide.
    pub fn from_color(color: RGBAColor) -> (r: ShapeStyle)
        ensures
            r == (ShapeStyle { color, filled: false, stroke_width: 1 }),
    {
        ShapeStyle { color, filled: false, stroke_width: 1 }
    }

    /// Returns a filled style with the same color and stroke width.
    pub fn filled(&self) -> (r: ShapeStyle)
        ensures
            r == (ShapeStyle { filled: true, ..*self }),
    {
        ShapeStyle { color: self.color, filled: true, stroke_width: self.stroke_width }
    }

    /// Returns a new style with the same color and the specified stroke width.
    pub fn stroke_width(&self, width: u32) -> (r: ShapeStyle)
        ensures
            r == (ShapeStyle { stroke_width: width, ..*self }),
    {
        ShapeStyle { color: self.color, filled: self.filled, stroke_width: width }
    }

    /// The style as the backend sees it.
    pub open spec fn backend_spec(&self) -> BackendStyle {
        BackendStyle { color: self.color.backend_spec(), stroke_width: self.stroke_width }
    }

    /// Convert the style into the backend's style type.
    pub fn to_backend_style(&self) -> (r: BackendStyle)
        ensures
            r == self.backend_spec(),
    {
        BackendStyle { color: self.color.to_backend_color(), stroke_width: self.stroke_width }
    }
}

} // verus!
