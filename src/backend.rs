//! The drawing backend protocol: the primitive operations, the frame
//! lifecycle (prepare, draw, present) and the error taxonomy.
use crate::rect::BackendCoord;
use crate::style::{BackendColor, BackendStyle};
use crate::text::{BackendTextStyle, TextOpStyle};
use vstd::prelude::*;

verus! {

/// One primitive as a backend receives it.
pub enum DrawOp {
    Pixel { point: BackendCoord, color: BackendColor },
    Line { from: BackendCoord, to: BackendCoord, style: BackendStyle },
    Rect { upper_left: BackendCoord, bottom_right: BackendCoord, style: BackendStyle, fill: bool },
    Path { path: Seq<BackendCoord>, style: BackendStyle },
    Circle { center: BackendCoord, radius: u32, style: BackendStyle, fill: bool },
    Polygon { vert: Seq<BackendCoord>, style: BackendStyle },
    Text { text: Seq<char>, text_style: TextOpStyle, pos: BackendCoord },
    Blit { pos: BackendCoord, src_size: (u32, u32), src: Seq<u8> },
}

/// The error produced by a drawing backend.
#[derive(Debug)]
pub enum DrawingErrorKind<E> {
    /// A drawing backend error
    DrawingError(E),
    /// A font rendering error, by its message
    FontError(String),
}

/// The drawing backend trait, which implements the low-level drawing APIs.
///
/// A backend goes through frames: `ensure_prepared` readies it for drawing
/// (and does nothing when it is ready already), the primitives draw into the
/// current frame, and `present` finishes the frame. `frame` is what has been
/// drawn since the last `present`.
pub trait DrawingBackend: Sized {
    /// The error type reported by the backend
    type ErrorType;

    /// The dimension of the canvas in pixels.
    spec fn size_spec(&self) -> (u32, u32);

    /// The backend is ready to draw.
    spec fn prepared(&self) -> bool;

    /// The primitives drawn since the last `present`.
    spec fn frame(&self) -> Seq<DrawOp>;

    /// The pixel size this backend gives a text in a style.
    spec fn text_size_spec(&self, text: &str, style: TextOpStyle) -> (u32, u32);

    /// Where this holds, no operation of the backend fails (text
    /// measurement apart, which may still find a text too large).
    spec fn never_fails(&self) -> bool;

    /// A backend that never fails measures this text in this style.
    spec fn text_measurable(&self, text: &str, style: TextOpStyle) -> bool;

    /// Get the dimension of the drawing backend in pixels
    fn get_size(&self) -> (r: (u32, u32))
        ensures
            r == self.size_spec(),
    ;

    /// Ensure the backend is ready to draw
    fn ensure_prepared(&mut self) -> (r: Result<(), DrawingErrorKind<Self::ErrorType>>)
        ensures
            final(self).size_spec() == old(self).size_spec(),
            final(self).frame() == old(self).frame(),
            forall|t: &str, s: TextOpStyle|
                #[trigger] final(self).text_size_spec(t, s) == old(self).text_size_spec(t, s),
            forall|t: &str, s: TextOpStyle|
                #[trigger] final(self).text_measurable(t, s) == old(self).text_measurable(t, s),
            final(self).never_fails() == old(self).never_fails(),
            old(self).never_fails() ==> r is Ok,
            r is Ok ==> final(self).prepared(),
            old(self).prepared() ==> r is Ok && *final(self) == *old(self),
    ;

    /// Finalize the drawing step and present all the changes.
    fn present(&mut self) -> (r: Result<(), DrawingErrorKind<Self::ErrorType>>)
        ensures
            final(self).size_spec() == old(self).size_spec(),
            final(self).never_fails() == old(self).never_fails(),
            old(self).never_fails() ==> r is Ok,
            r is Ok ==> !final(self).prepared() && final(self).frame() == Seq::<DrawOp>::empty(),
    ;

    /// Draw a pixel on the drawing backend
    fn draw_pixel(&mut self, point: BackendCoord, color: BackendColor) -> (r: Result<
        (),
        DrawingErrorKind<Self::ErrorType>,
    >)
        requires
            old(self).prepared(),
        ensures
            final(self).size_spec() == old(self).size_spec(),
            final(self).never_fails() == old(self).never_fails(),
            old(self).never_fails() ==> r is Ok,
            r is Err ==> final(self).frame() == old(self).frame(),
            r is Ok ==> final(self).prepared() && final(self).frame() == old(self).frame().push(
                DrawOp::Pixel { point, color },
            ),
    ;

    /// Draw a line on the drawing backend
    fn draw_line(&mut self, from: BackendCoord, to: BackendCoord, style: &BackendStyle) -> (r:
        Result<(), DrawingErrorKind<Self::ErrorType>>)
        requires
            old(self).prepared(),
        ensures
            final(self).size_spec() == old(self).size_spec(),
            final(self).never_fails() == old(self).never_fails(),
            old(self).never_fails() ==> r is Ok,
            r is Err ==> final(self).frame() == old(self).frame(),
            r is Ok ==> final(self).prepared() && final(self).frame() == old(self).frame().push(
                DrawOp::Line { from, to, style: *style },
            ),
    ;

    /// Draw a rectangle on the drawing backend
    fn draw_rect(
        &mut self,
        upper_left: BackendCoord,
        bottom_right: BackendCoord,
        style: &BackendStyle,
        fill: bool,
    ) -> (r: Result<(), DrawingErrorKind<Self::ErrorType>>)
        requires
            old(self).prepared(),
        ensures
            final(self).size_spec() == old(self).size_spec(),
            final(self).never_fails() == old(self).never_fails(),
            old(self).never_fails() ==> r is Ok,
            r is Err ==> final(self).frame() == old(self).frame(),
            r is Ok ==> final(self).prepared() && final(self).frame() == old(self).frame().push(
                DrawOp::Rect { upper_left, bottom_right, style: *style, fill },
            ),
    ;

    /// Draw a path on the drawing backend
    fn draw_path(&mut self, path: &[BackendCoord], style: &BackendStyle) -> (r: Result<
        (),
        DrawingErrorKind<Self::ErrorType>,
    >)
        requires
            old(self).prepared(),
        ensures
            final(self).size_spec() == old(self).size_spec(),
            final(self).never_fails() == old(self).never_fails(),
            old(self).never_fails() ==> r is Ok,
            r is Err ==> final(self).frame() == old(self).frame(),
            r is Ok ==> final(self).prepared() && final(self).frame() == old(self).frame().push(
                DrawOp::Path { path: path@, style: *style },
            ),
    ;

    /// Draw a circle on the drawing backend
    fn draw_circle(&mut self, center: BackendCoord, radius: u32, style: &BackendStyle, fill: bool) -> (r:
        Result<(), DrawingErrorKind<Self::ErrorType>>)
        requires
            old(self).prepared(),
        ensures
            final(self).size_spec() == old(self).size_spec(),
            final(self).never_fails() == old(self).never_fails(),
            old(self).never_fails() ==> r is Ok,
            r is Err ==> final(self).frame() == old(self).frame(),
            r is Ok ==> final(self).prepared() && final(self).frame() == old(self).frame().push(
                DrawOp::Circle { center, radius, style: *style, fill },
            ),
    ;

    /// Fill a polygon on the drawing backend
    fn fill_polygon(&mut self, vert: &[BackendCoord], style: &BackendStyle) -> (r: Result<
        (),
        DrawingErrorKind<Self::ErrorType>,
    >)
        requires
            old(self).prepared(),
        ensures
            final(self).size_spec() == old(self).size_spec(),
            final(self).never_fails() == old(self).never_fails(),
            old(self).never_fails() ==> r is Ok,
            r is Err ==> final(self).frame() == old(self).frame(),
            r is Ok ==> final(self).prepared() && final(self).frame() == old(self).frame().push(
                DrawOp::Polygon { vert: vert@, style: *style },
            ),
    ;

    /// Draw a text on the drawing backend
    fn draw_text(&mut self, text: &str, style: &BackendTextStyle, pos: BackendCoord) -> (r: Result<
        (),
        DrawingErrorKind<Self::ErrorType>,
    >)
        requires
            old(self).prepared(),
        ensures
            final(self).size_spec() == old(self).size_spec(),
            final(self).never_fails() == old(self).never_fails(),
            old(self).never_fails() ==> r is Ok,
            r is Err ==> final(self).frame() == old(self).frame(),
            r is Ok ==> final(self).prepared() && final(self).frame() == old(self).frame().push(
                DrawOp::Text { text: text@, text_style: style.model(), pos },
            ),
    ;

    /// Estimate the size of the horizontal text if rendered on this backend.
    fn estimate_text_size(&self, text: &str, style: &BackendTextStyle) -> (r: Result<
        (u32, u32),
        DrawingErrorKind<Self::ErrorType>,
    >)
        ensures
            r matches Ok(s) ==> s == self.text_size_spec(text, style.model()),
            self.never_fails() ==> (r is Ok <==> self.text_measurable(text, style.model())),
    ;

    /// Blit a bitmap on to the backend.
    fn blit_bitmap(&mut self, pos: BackendCoord, src_size: (u32, u32), src: &[u8]) -> (r: Result<
        (),
        DrawingErrorKind<Self::ErrorType>,
    >)
        requires
            old(self).prepared(),
        ensures
            final(self).size_spec() == old(self).size_spec(),
            final(self).never_fails() == old(self).never_fails(),
            old(self).never_fails() ==> r is Ok,
            r is Err ==> final(self).frame() == old(self).frame(),
            r is Ok ==> final(self).prepared() && final(self).frame() == old(self).frame().push(
                DrawOp::Blit { pos, src_size, src: src@ },
            ),
    ;
}

/// Preparing a backend that is ready already changes nothing: of two
/// consecutive `ensure_prepared` calls with no `present` between them, taking
/// the backend from `b0` to `b1` and then to `b2`, the second succeeds and
/// leaves the backend exactly as the first left it, so a frame is prepared at
/// most once. The premises are the `ensure_prepared` contract for each call.
pub proof fn lemma_prepare_idempotent<DB: DrawingBackend>(
    b0: DB,
    b1: DB,
    b2: DB,
    r1: Result<(), DrawingErrorKind<DB::ErrorType>>,
    r2: Result<(), DrawingErrorKind<DB::ErrorType>>,
)
    requires
        b1.size_spec() == b0.size_spec(),
        b1.frame() == b0.frame(),
        r1 is Ok ==> b1.prepared(),
        b0.prepared() ==> r1 is Ok && b1 == b0,
        b2.size_spec() == b1.size_spec(),
        b2.frame() == b1.frame(),
        r2 is Ok ==> b2.prepared(),
        b1.prepared() ==> r2 is Ok && b2 == b1,
        r1 is Ok,
    ensures
        b2 == b1,
        r2 is Ok,
{
}

} // verus!
