//! A backend that draws nothing and records every primitive it receives, to
//! observe what the drawing layer issues.
use crate::area::{root_rect, shifted, DrawingArea};
use crate::backend::{DrawOp, DrawingBackend, DrawingErrorKind};
use crate::coord::Shift;
use crate::font::{naive_estimate_layout, naive_layout, naive_layout_fits};
use crate::rect::BackendCoord;
use crate::style::{BackendColor, BackendStyle};
use crate::text::{BackendTextStyle, FontStyle, FontTransform, Pos, TextOpStyle};
use vstd::prelude::*;

verus! {

/// The error of the recording backend: a text too large to measure.
#[derive(Debug, Clone, Copy, PartialEq, Eq, Structural)]
pub struct MockedError;

/// A primitive as the recording backend keeps it.
#[derive(Debug)]
pub enum DrawCall {
    Pixel { point: BackendCoord, color: BackendColor },
    Line { from: BackendCoord, to: BackendCoord, style: BackendStyle },
    Rect { upper_left: BackendCoord, bottom_right: BackendCoord, style: BackendStyle, fill: bool },
    Path { path: Vec<BackendCoord>, style: BackendStyle },
    Circle { center: BackendCoord, radius: u32, style: BackendStyle, fill: bool },
    Polygon { vert: Vec<BackendCoord>, style: BackendStyle },
    Text {
        text: String,
        family: String,
        size: u32,
        color: BackendColor,
        transform: FontTransform,
        font_style: FontStyle,
        anchor: Pos,
        pos: BackendCoord,
    },
    Blit { pos: BackendCoord, src_size: (u32, u32), src: Vec<u8> },
}

impl View for DrawCall {
    type V = DrawOp;

    open spec fn view(&self) -> DrawOp {
        match self {
            DrawCall::Pixel { point, color } => DrawOp::Pixel { point: *point, color: *color },
            DrawCall::Line { from, to, style } => DrawOp::Line { from: *from, to: *to, style: *style },
            DrawCall::Rect { upper_left, bottom_right, style, fill } => DrawOp::Rect {
                upper_left: *upper_left,
                bottom_right: *bottom_right,
                style: *style,
                fill: *fill,
            },
            DrawCall::Path { path, style } => DrawOp::Path { path: path@, style: *style },
            DrawCall::Circle { center, radius, style, fill } => DrawOp::Circle {
                center: *center,
                radius: *radius,
                style: *style,
                fill: *fill,
            },
            DrawCall::Polygon { vert, style } => DrawOp::Polygon { vert: vert@, style: *style },
            DrawCall::Text { text, family, size, color, transform, font_style, anchor, pos } => DrawOp::Text {
                text: text@,
                text_style: TextOpStyle {
                    color: *color,
                    size: *size,
                    transform: *transform,
                    style: *font_style,
                    anchor: *anchor,
                    family: family@,
                },
                pos: *pos,
            },
            DrawCall::Blit { pos, src_size, src } => DrawOp::Blit { pos: *pos, src_size: *src_size, src: src@ },
        }
    }
}

/// A backend of a given size that records the primitives of the current
/// frame and counts what it is asked to do. None of its operations fails,
/// but for measuring a text too large for `i32` pixels.
pub struct MockedBackend {
    height: u32,
    width: u32,
    prepared: bool,
    init_count: u32,
    pub draw_count: u32,
    pub num_draw_pixel_call: u32,
    pub num_draw_line_call: u32,
    pub num_draw_rect_call: u32,
    pub num_draw_circle_call: u32,
    pub num_draw_text_call: u32,
    pub num_draw_path_call: u32,
    pub num_fill_polygon_call: u32,
    calls: Vec<DrawCall>,
}

/// Copies a slice into a new vector.
fn copy_slice<T: Copy>(s: &[T]) -> (r: Vec<T>)
    ensures
        r@ == s@,
{
    let mut r: Vec<T> = Vec::new();
    let mut i: usize = 0;
    while i < s.len()
        invariant
            i <= s@.len(),
            r@ == s@.subrange(0, i as int),
        decreases s@.len() - i,
    {
        r.push(s[i]);
        i = i + 1;
        proof {
            assert(r@ =~= s@.subrange(0, i as int));
        }
    }
    proof {
        assert(s@.subrange(0, s@.len() as int) =~= s@);
    }
    r
}

impl MockedBackend {
    /// The number of frames prepared since the last `present`: 0 or 1.
    pub closed spec fn prepare_count(&self) -> u32 {
        self.init_count
    }

    /// A new backend of `width` x `height` pixels, not yet prepared.
    pub fn new(width: u32, height: u32) -> (r: MockedBackend)
        ensures
            r.size_spec() == (width, height),
            !r.prepared(),
            r.frame() == Seq::<DrawOp>::empty(),
            r.prepare_count() == 0,
            r.never_fails(),
    {
        let r = MockedBackend {
            height,
            width,
            prepared: false,
            init_count: 0,
            draw_count: 0,
            num_draw_pixel_call: 0,
            num_draw_line_call: 0,
            num_draw_rect_call: 0,
            num_draw_circle_call: 0,
            num_draw_text_call: 0,
            num_draw_path_call: 0,
            num_fill_polygon_call: 0,
            calls: Vec::new(),
        };
        proof {
            assert(r.calls@.map_values(|c: DrawCall| c@) =~= Seq::<DrawOp>::empty());
        }
        r
    }

    /// How many times a frame was prepared since the last `present`.
    pub fn init_count(&self) -> (r: u32)
        ensures
            r == self.prepare_count(),
    {
        self.init_count
    }

    /// The primitives of the current frame, in the order they were drawn.
    pub fn calls(&self) -> (r: &Vec<DrawCall>)
        ensures
            r@.map_values(|c: DrawCall| c@) == self.frame(),
    {
        &self.calls
    }

    /// Records one primitive of the current frame.
    fn record(&mut self, c: DrawCall)
        requires
            old(self).prepared,
        ensures
            final(self).prepared,
            final(self).width == old(self).width,
            final(self).height == old(self).height,
            final(self).calls@ == old(self).calls@.push(c),
            final(self).draw_count == old(self).draw_count.saturating_add(1),
            final(self).init_count == old(self).init_count,
            final(self).num_draw_pixel_call == old(self).num_draw_pixel_call,
            final(self).num_draw_line_call == old(self).num_draw_line_call,
            final(self).num_draw_rect_call == old(self).num_draw_rect_call,
            final(self).num_draw_circle_call == old(self).num_draw_circle_call,
            final(self).num_draw_text_call == old(self).num_draw_text_call,
            final(self).num_draw_path_call == old(self).num_draw_path_call,
            final(self).num_fill_polygon_call == old(self).num_fill_polygon_call,
            final(self).calls@.map_values(|c: DrawCall| c@) == old(self).calls@.map_values(
                |c: DrawCall| c@,
            ).push(c@),
    {
        self.draw_count = self.draw_count.saturating_add(1);
        self.calls.push(c);
        proof {
            assert(self.calls@.map_values(|c: DrawCall| c@) =~= old(self).calls@.map_values(
                |c: DrawCall| c@,
            ).push(c@));
        }
    }
}

/// A recording backend of `width` x `height` pixels and its root area.
pub fn create_mocked_drawing_area(width: u32, height: u32) -> (r: (MockedBackend, DrawingArea<Shift>))
    ensures
        r.0.size_spec() == (width, height),
        r.0.never_fails(),
        !r.0.prepared(),
        r.0.frame() == Seq::<DrawOp>::empty(),
        shifted(r.1, root_rect((width, height))),
{
    let backend = MockedBackend::new(width, height);
    let area = DrawingArea::for_drawing_backend(&backend);
    (backend, area)
}

impl DrawingBackend for MockedBackend {
    type ErrorType = MockedError;

    closed spec fn size_spec(&self) -> (u32, u32) {
        (self.width, self.height)
    }

    closed spec fn never_fails(&self) -> bool {
        true
    }

    closed spec fn text_measurable(&self, text: &str, style: TextOpStyle) -> bool {
        naive_layout_fits(style.size as int, text.len() as int)
    }

    closed spec fn prepared(&self) -> bool {
        self.prepared
    }

    closed spec fn frame(&self) -> Seq<DrawOp> {
        self.calls@.map_values(|c: DrawCall| c@)
    }

    closed spec fn text_size_spec(&self, text: &str, style: TextOpStyle) -> (u32, u32) {
        let b = naive_layout(style.size as int, text.len() as int);
        ((b.1.0 - b.0.0) as u32, (b.1.1 - b.0.1) as u32)
    }

    fn get_size(&self) -> (u32, u32) {
        (self.width, self.height)
    }

    fn ensure_prepared(&mut self) -> Result<(), DrawingErrorKind<MockedError>> {
        if !self.prepared {
            self.prepared = true;
            self.init_count = self.init_count.saturating_add(1);
        }
        Ok(())
    }

    fn present(&mut self) -> Result<(), DrawingErrorKind<MockedError>> {
        self.prepared = false;
        self.init_count = 0;
        self.draw_count = 0;
        self.calls = Vec::new();
        proof {
            assert(self.calls@.map_values(|c: DrawCall| c@) =~= Seq::<DrawOp>::empty());
        }
        Ok(())
    }

    fn draw_pixel(&mut self, point: BackendCoord, color: BackendColor) -> Result<
        (),
        DrawingErrorKind<MockedError>,
    > {
        self.num_draw_pixel_call = self.num_draw_pixel_call.saturating_add(1);
        self.record(DrawCall::Pixel { point, color });
        Ok(())
    }

    fn draw_line(&mut self, from: BackendCoord, to: BackendCoord, style: &BackendStyle) -> Result<
        (),
        DrawingErrorKind<MockedError>,
    > {
        self.num_draw_line_call = self.num_draw_line_call.saturating_add(1);
        self.record(DrawCall::Line { from, to, style: *style });
        Ok(())
    }

    fn draw_rect(
        &mut self,
        upper_left: BackendCoord,
        bottom_right: BackendCoord,
        style: &BackendStyle,
        fill: bool,
    ) -> Result<(), DrawingErrorKind<MockedError>> {
        self.num_draw_rect_call = self.num_draw_rect_call.saturating_add(1);
        self.record(DrawCall::Rect { upper_left, bottom_right, style: *style, fill });
        Ok(())
    }

    fn draw_path(&mut self, path: &[BackendCoord], style: &BackendStyle) -> Result<
        (),
        DrawingErrorKind<MockedError>,
    > {
        self.num_draw_path_call = self.num_draw_path_call.saturating_add(1);
        self.record(DrawCall::Path { path: copy_slice(path), style: *style });
        Ok(())
    }

    fn draw_circle(&mut self, center: BackendCoord, radius: u32, style: &BackendStyle, fill: bool) -> Result<
        (),
        DrawingErrorKind<MockedError>,
    > {
        self.num_draw_circle_call = self.num_draw_circle_call.saturating_add(1);
        self.record(DrawCall::Circle { center, radius, style: *style, fill });
        Ok(())
    }

    fn fill_polygon(&mut self, vert: &[BackendCoord], style: &BackendStyle) -> Result<
        (),
        DrawingErrorKind<MockedError>,
    > {
        self.num_fill_polygon_call = self.num_fill_polygon_call.saturating_add(1);
        self.record(DrawCall::Polygon { vert: copy_slice(vert), style: *style });
        Ok(())
    }

    fn draw_text(&mut self, text: &str, style: &BackendTextStyle, pos: BackendCoord) -> Result<
        (),
        DrawingErrorKind<MockedError>,
    > {
        self.num_draw_text_call = self.num_draw_text_call.saturating_add(1);
        self.record(
            DrawCall::Text {
                text: text.to_owned(),
                family: style.family.as_str().to_owned(),
                size: style.size,
                color: style.color,
                transform: style.transform,
                font_style: style.style,
                anchor: style.anchor,
                pos,
            },
        );
        Ok(())
    }

    fn estimate_text_size(&self, text: &str, style: &BackendTextStyle) -> Result<
        (u32, u32),
        DrawingErrorKind<MockedError>,
    > {
        match naive_estimate_layout(style.size, text.len()) {
            Some(b) => Ok(
                ((b.1.0 as i64 - b.0.0 as i64) as u32, (b.1.1 as i64 - b.0.1 as i64) as u32),
            ),
            None => Err(DrawingErrorKind::DrawingError(MockedError)),
        }
    }

    fn blit_bitmap(&mut self, pos: BackendCoord, src_size: (u32, u32), src: &[u8]) -> Result<
        (),
        DrawingErrorKind<MockedError>,
    > {
        self.record(DrawCall::Blit { pos, src_size, src: copy_slice(src) });
        Ok(())
    }
}

} // verus!
