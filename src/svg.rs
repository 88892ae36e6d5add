//! A rendered SVG document with the CSS style of the element that shows it.
use vstd::prelude::*;

verus! {

/// The wrapper for the generated SVG: the document and its display style.
#[derive(Debug)]
pub struct SVGWrapper(pub String, pub String);

impl SVGWrapper {
    /// Sets the style of the `SVGWrapper` struct.
    pub fn style(self, style: String) -> (r: SVGWrapper)
        ensures
            r.0 == self.0,
            r.1 == style,
    {
        SVGWrapper(self.0, style)
    }
}

} // verus!
