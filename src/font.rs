//! Font loading and text measurement. The built-in metrics are a crude,
//! font-independent estimate, since some backends (vector output) cannot
//! know the real size of a text anyway.
use crate::text::{FontDesc, FontFamily, FontStyle};
use vstd::prelude::*;

verus! {

/// Represents a box where a text label can be fit: the corners relative to
/// the text's origin on the baseline.
pub type LayoutBox = ((i32, i32), (i32, i32));

/// A loaded font that can measure texts.
pub trait FontData: Sized {
    type ErrorType;

    /// The layout box of `text` at `size` pixels, if the font can lay it out.
    spec fn layout_spec(&self, size: u32, text: &str) -> Option<LayoutBox>;

    /// The layout box of `text` drawn at `size` pixels.
    fn estimate_layout(&self, size: u32, text: &str) -> (r: Result<LayoutBox, Self::ErrorType>)
        ensures
            r is Ok <==> self.layout_spec(size, text) is Some,
            r matches Ok(b) ==> self.layout_spec(size, text) == Some(b),
    ;
}

/// Abstraction over different font loaders.
pub trait FontBackend {
    type Font: FontData;

    /// Load the font that `desc` describes; a failure comes with its message.
    fn load_font(&self, desc: &FontDesc) -> Result<Self::Font, String>;
}

/// The error of the built-in font metrics: the text is too large to measure
/// in `i32` pixels.
#[derive(Debug, Clone, Copy, PartialEq, Eq, Structural)]
pub struct FontError;

/// The font loader of the built-in metrics.
pub struct NaiveFontBackend;

/// A font of the built-in metrics: its family name and style name.
#[derive(Clone, Debug)]
pub struct NaiveFontData(pub String, pub String);

/// The built-in estimate of a text box, for a font of `size` pixels and a
/// text of `len` bytes. With `em = size / 1.24^2`, the box runs from
/// `(0, -round(em))` to `(round(0.7 * em * len), round(0.24 * em))`, each
/// coordinate rounded to the nearest integer.
pub open spec fn naive_layout(size: int, len: int) -> ((int, int), (int, int)) {
    ((0, -((1250 * size + 961) / 1922)), ((8750 * size * len + 9610) / 19220, (300 * size + 961) / 1922))
}

/// The built-in estimate fits in `i32` pixels.
pub open spec fn naive_layout_fits(size: int, len: int) -> bool {
    let b = naive_layout(size, len);
    -b.0.1 <= i32::MAX && b.1.0 <= i32::MAX && b.1.1 <= i32::MAX
}

/// The built-in text box estimate, or `None` where it does not fit in `i32`.
pub fn naive_estimate_layout(size: u32, len: usize) -> (r: Option<LayoutBox>)
    ensures
        naive_layout_fits(size as int, len as int) <==> r is Some,
        r matches Some(b) ==> ((b.0.0 as int, b.0.1 as int), (b.1.0 as int, b.1.1 as int))
            == naive_layout(size as int, len as int),
{
    let s: u128 = size as u128;
    let n: u128 = len as u128;
    proof {
        assert(s * n <= (u32::MAX as int) * (u64::MAX as int)) by (nonlinear_arith)
            requires
                s <= u32::MAX,
                n <= u64::MAX,
                s >= 0,
                n >= 0,
        ;
    }
    let em: u128 = (1250 * s + 961) / 1922;
    let w: u128 = (8750 * (s * n) + 9610) / 19220;
    let d: u128 = (300 * s + 961) / 1922;
    proof {
        assert(8750 * (s * n) == 8750 * s * n) by (nonlinear_arith);
    }
    if em > i32::MAX as u128 || w > i32::MAX as u128 || d > i32::MAX as u128 {
        return None;
    }
    Some(((0, -(em as i32)), (w as i32, d as i32)))
}

/// The built-in estimate as `i32` pixels, where it fits.
pub open spec fn naive_layout_box(size: int, len: int) -> Option<LayoutBox> {
    let b = naive_layout(size, len);
    if naive_layout_fits(size, len) {
        Some(((b.0.0 as i32, b.0.1 as i32), (b.1.0 as i32, b.1.1 as i32)))
    } else {
        None
    }
}

impl FontData for NaiveFontData {
    type ErrorType = FontError;

    open spec fn layout_spec(&self, size: u32, text: &str) -> Option<LayoutBox> {
        naive_layout_box(size as int, text.len() as int)
    }

    fn estimate_layout(&self, size: u32, text: &str) -> Result<LayoutBox, FontError> {
        match naive_estimate_layout(size, text.len()) {
            Some(b) => Ok(b),
            None => Err(FontError),
        }
    }
}

impl NaiveFontData {
    /// The layout box of `text` at `size` pixels under the built-in metrics.
    pub fn layout(&self, size: u32, text: &str) -> (r: Result<LayoutBox, FontError>)
        ensures
            naive_layout_fits(size as int, text.len() as int) <==> r is Ok,
            r matches Ok(b) ==> ((b.0.0 as int, b.0.1 as int), (b.1.0 as int, b.1.1 as int))
                == naive_layout(size as int, text.len() as int),
    {
        match naive_estimate_layout(size, text.len()) {
            Some(b) => Ok(b),
            None => Err(FontError),
        }
    }
}

impl FontBackend for NaiveFontBackend {
    type Font = NaiveFontData;

    fn load_font(&self, desc: &FontDesc) -> Result<NaiveFontData, String> {
        Ok(NaiveFontBackend::load(desc))
    }
}

impl NaiveFontBackend {
    /// The built-in font for `desc`: its family and style names.
    pub fn load(desc: &FontDesc) -> (r: NaiveFontData)
        ensures
            r.0@ == desc.family.name_spec(),
            r.1@ == desc.style.name_spec(),
    {
        NaiveFontData(desc.family.as_str().to_owned(), desc.style.as_str().to_owned())
    }
}

/// The built-in font of the drawing layer: its family and style names.
#[derive(Clone, Debug)]
pub struct FontDataInternal(pub String, pub String);

impl FontDataInternal {
    /// The font of `family` in `style`.
    pub fn new(family: FontFamily, style: FontStyle) -> (r: Result<FontDataInternal, FontError>)
        ensures
            r matches Ok(f) && f.0@ == family.name_spec() && f.1@ == style.name_spec(),
    {
        Ok(FontDataInternal(family.as_str().to_owned(), style.as_str().to_owned()))
    }
}

} // verus!
