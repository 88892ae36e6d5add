//! Fonts measured by a browser: loading records the family and style
//! names; the measurement itself happens in the page, which hands back the
//! rendered width and height.
use crate::font::LayoutBox;
use crate::text::FontDesc;
use vstd::prelude::*;

verus! {

/// The error of browser-side text measurement.
#[derive(Debug, Clone, Copy, PartialEq, Eq, Structural)]
pub enum FontError {
    /// The page could not measure the text
    UnknownError,
}

/// The font loader for fonts measured by the browser.
pub struct WebFontBackend;

/// A font measured by the browser: its family name and style name.
#[derive(Debug)]
pub struct WebFontData(pub String, pub String);

impl WebFontBackend {
    /// The browser font for `desc`: its family and style names.
    pub fn load(desc: &FontDesc) -> (r: WebFontData)
        ensures
            r.0@ == desc.family.name_spec(),
            r.1@ == desc.style.name_spec(),
    {
        WebFontData(desc.family.as_str().to_owned(), desc.style.as_str().to_owned())
    }
}

impl WebFontData {
    /// The layout box of a text that the browser rendered `width` x
    /// `height` pixels large: from the origin to that corner.
    pub fn layout_of_measure(width: i32, height: i32) -> (r: LayoutBox)
        ensures
            r == ((0i32, 0i32), (width, height)),
    {
        ((0, 0), (width, height))
    }
}

} // verus!
