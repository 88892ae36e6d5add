//! Text elements: a single line at an anchor, and several lines laid out
//! downward from it.
use crate::backend::{DrawOp, DrawingBackend, DrawingErrorKind};
use crate::element::{lemma_stopped_at, lemma_stopped_inside, BackendCoordOnly, Drawable, PointCollection};
use crate::points::{offset, offset_point};
use crate::rect::{BackendCoord, Rect};
use crate::font::{FontBackend, FontData, LayoutBox};
use crate::rect::clamp_int;
use crate::text::{FontTransform, TextStyle};
use vstd::prelude::*;

verus! {

/// A single line text element.
pub struct Text<'a, Coord> {
    pub text: String,
    pub coord: Coord,
    pub style: TextStyle<'a>,
}

impl<'a, Coord> Text<'a, Coord> {
    /// Create a new text element anchored at `points`.
    pub fn new(text: String, points: Coord, style: TextStyle<'a>) -> (r: Text<'a, Coord>)
        ensures
            r.text == text,
            r.coord == points,
            r.style == style,
    {
        Text { text, coord: points, style }
    }
}

impl<'a, Coord> PointCollection<Coord> for Text<'a, Coord> {
    open spec fn points_spec(&self) -> Seq<Coord> {
        seq![self.coord]
    }

    fn num_points(&self) -> usize {
        1
    }

    fn point(&self, i: usize) -> &Coord {
        &self.coord
    }
}

impl<'a, Coord> Drawable<BackendCoordOnly> for Text<'a, Coord> {
    /// One text at the anchor pixel.
    open spec fn draw_ops(&self, pos: Seq<BackendCoord>, clip: Rect, parent_dim: (u32, u32)) -> Seq<DrawOp> {
        if pos.len() == 0 {
            Seq::empty()
        } else {
            seq![
                DrawOp::Text {
                    text: self.text@,
                    text_style: self.style.backend_spec().model(),
                    pos: pos[0],
                },
            ]
        }
    }

    fn draw<DB: DrawingBackend>(&self, pos: &Vec<BackendCoord>, clip: &Rect, backend: &mut DB, parent_dim: (u32, u32)) -> Result<
        (),
        DrawingErrorKind<DB::ErrorType>,
    > {
        if pos.len() == 0 {
            proof {
                assert(old(backend).frame() + Seq::<DrawOp>::empty() =~= old(backend).frame());
            }
            return Ok(());
        }
        let r = backend.draw_text(self.text.as_str(), &self.style.to_backend(), pos[0]);
        proof {
            let ops = self.draw_ops(pos@, *clip, parent_dim);
            if r is Ok {
                assert(backend.frame() =~= old(backend).frame() + ops);
            } else {
                assert(ops.subrange(0, ops.len() as int) =~= ops);
                lemma_stopped_at(old(backend).frame(), ops, 0);
                assert(backend.frame() =~= old(backend).frame() + ops.subrange(0, 0));
            }
        }
        r
    }
}

/// A multi-line text element: left-aligned lines, each `line_height`
/// percent of the font size below the previous one.
pub struct MultiLineText<'a, Coord> {
    pub lines: Vec<String>,
    pub coord: Coord,
    pub style: TextStyle<'a>,
    pub line_height: u32,
}

/// The vertical offset of line `idx` for a font of `size` pixels and a line
/// height of `lh` percent: `idx * size * lh / 100`, rounded to the nearest
/// pixel.
pub open spec fn line_offset(idx: int, size: int, lh: int) -> int {
    (2 * idx * size * lh + 100) / 200
}

/// Where the lines of a multi-line text anchored at `p` start.
pub open spec fn line_positions(p: BackendCoord, n: int, size: int, lh: int) -> Seq<BackendCoord> {
    Seq::new(n as nat, |i: int| offset(p, 0, line_offset(i, size, lh)))
}

/// The texts drawn for `lines` starting at the positions `at`.
pub open spec fn line_ops(lines: Seq<String>, at: Seq<BackendCoord>, style: TextStyle) -> Seq<DrawOp>
    decreases lines.len(),
{
    if lines.len() == 0 {
        Seq::empty()
    } else {
        line_ops(lines.drop_last(), at, style).push(
            DrawOp::Text {
                text: lines.last()@,
                text_style: style.backend_spec().model(),
                pos: at[lines.len() - 1],
            },
        )
    }
}

/// The texts for the first `j` lines begin the texts for all of them.
proof fn lemma_line_ops_prefix(lines: Seq<String>, at: Seq<BackendCoord>, style: TextStyle, j: int)
    requires
        0 <= j <= lines.len(),
    ensures
        line_ops(lines.subrange(0, j), at, style).len() <= line_ops(lines, at, style).len(),
        line_ops(lines, at, style).subrange(0, line_ops(lines.subrange(0, j), at, style).len() as int)
            == line_ops(lines.subrange(0, j), at, style),
    decreases lines.len(),
{
    if j == lines.len() {
        assert(lines.subrange(0, j) =~= lines);
        assert(line_ops(lines, at, style).subrange(0, line_ops(lines, at, style).len() as int)
            =~= line_ops(lines, at, style));
    } else {
        let dl = lines.drop_last();
        lemma_line_ops_prefix(dl, at, style, j);
        assert(dl.subrange(0, j) =~= lines.subrange(0, j));
        let p = line_ops(lines.subrange(0, j), at, style);
        assert(line_ops(lines, at, style).subrange(0, p.len() as int) =~= line_ops(dl, at, style).subrange(
            0,
            p.len() as int,
        ));
    }
}

/// What `str::lines` splits a text into: its lines, without their line
/// endings.
pub uninterp spec fn lines_of(s: Seq<char>) -> Seq<Seq<char>>;

/// Relies on `str::lines`: the lines of a text, which depend on its
/// characters alone.
#[verifier::external_body]
fn split_lines<'b>(s: &'b str) -> (r: Vec<&'b str>)
    ensures
        r@.len() == lines_of(s@).len(),
        forall|i: int| 0 <= i < r@.len() ==> (#[trigger] r@[i])@ == lines_of(s@)[i],
{
    s.lines().collect()
}

/// Owned copies of the lines of `text`.
fn owned_lines(text: &str) -> (r: Vec<String>)
    ensures
        r@.len() == lines_of(text@).len(),
        forall|i: int| 0 <= i < r@.len() ==> (#[trigger] r@[i])@ == lines_of(text@)[i],
{
    let parts = split_lines(text);
    let mut r: Vec<String> = Vec::new();
    let mut i: usize = 0;
    while i < parts.len()
        invariant
            parts@.len() == lines_of(text@).len(),
            forall|j: int| 0 <= j < parts@.len() ==> (#[trigger] parts@[j])@ == lines_of(text@)[j],
            i <= parts.len(),
            r@.len() == i,
            forall|j: int| 0 <= j < i ==> (#[trigger] r@[j])@ == lines_of(text@)[j],
        decreases parts.len() - i,
    {
        r.push(parts[i].to_owned());
        i = i + 1;
    }
    r
}

impl<'a, Coord> MultiLineText<'a, Coord> {
    /// Create an empty multi-line text element anchored at `pos`, with a
    /// line height of 125 percent.
    pub fn new(pos: Coord, style: TextStyle<'a>) -> (r: MultiLineText<'a, Coord>)
        ensures
            r.lines@.len() == 0,
            r.coord == pos,
            r.style == style,
            r.line_height == 125,
    {
        MultiLineText { lines: Vec::new(), coord: pos, style, line_height: 125 }
    }

    /// The multi-line text of the lines of `text`.
    pub fn from_str(text: &str, pos: Coord, style: TextStyle<'a>) -> (r: MultiLineText<'a, Coord>)
        ensures
            r.lines@.len() == lines_of(text@).len(),
            forall|i: int| 0 <= i < r.lines@.len() ==> (#[trigger] r.lines@[i])@ == lines_of(text@)[i],
            r.coord == pos,
            r.style == style,
            r.line_height == 125,
    {
        MultiLineText { lines: owned_lines(text), coord: pos, style, line_height: 125 }
    }

    /// The multi-line text of the lines of `text`.
    pub fn from_string(text: String, pos: Coord, style: TextStyle<'a>) -> (r: MultiLineText<'a, Coord>)
        ensures
            r.lines@.len() == lines_of(text@).len(),
            forall|i: int| 0 <= i < r.lines@.len() ==> (#[trigger] r.lines@[i])@ == lines_of(text@)[i],
            r.coord == pos,
            r.style == style,
            r.line_height == 125,
    {
        MultiLineText { lines: owned_lines(text.as_str()), coord: pos, style, line_height: 125 }
    }

    /// Set the line height, in percent of the font size
    pub fn set_line_height(&mut self, value: u32) -> (r: &mut Self)
        ensures
            r.line_height == value,
            r.lines == old(self).lines,
            r.coord == old(self).coord,
            r.style == old(self).style,
            *final(self) == *final(r),
    {
        self.line_height = value;
        self
    }

    /// Push a new line into the given multi-line text
    pub fn push_line(&mut self, line: String)
        ensures
            final(self).lines@ == old(self).lines@.push(line),
            final(self).line_height == old(self).line_height,
            final(self).coord == old(self).coord,
            final(self).style == old(self).style,
    {
        self.lines.push(line);
    }

    /// Move the location to the specified location
    pub fn relocate(&mut self, coord: Coord)
        ensures
            final(self).coord == coord,
            final(self).lines == old(self).lines,
            final(self).line_height == old(self).line_height,
            final(self).style == old(self).style,
    {
        self.coord = coord;
    }

    /// Where the lines start when the text is anchored at `p`.
    pub fn layout_lines(&self, p: BackendCoord) -> (r: Vec<BackendCoord>)
        ensures
            r@ == line_positions(
                p,
                self.lines@.len() as int,
                self.style.font.size as int,
                self.line_height as int,
            ),
    {
        let n = self.lines.len();
        let size = self.style.font.size as u128;
        let lh = self.line_height as u128;
        let mut r: Vec<BackendCoord> = Vec::new();
        let mut i: usize = 0;
        while i < n
            invariant
                n == self.lines@.len(),
                size == self.style.font.size,
                lh == self.line_height,
                i <= n,
                r@ == line_positions(p, n as int, size as int, lh as int).subrange(0, i as int),
            decreases n - i,
        {
            proof {
                assert(2 * (i as int) * size <= 2 * (u64::MAX as int) * (u32::MAX as int)) by (nonlinear_arith)
                    requires
                        0 <= i <= u64::MAX,
                        0 <= size <= u32::MAX,
                ;
            }
            let step: i64 = match (2 * (i as u128) * size).checked_mul(lh) {
                Some(v) => {
                    if v > 0xC8_0000_0000 {
                        0x1_0000_0000
                    } else {
                        ((v + 100) / 200) as i64
                    }
                },
                None => 0x1_0000_0000,
            };
            proof {
                assert(2 * (i as int) * size * lh == (2 * (i as int) * size) * lh);
            }
            let at = offset_point(p, 0, step);
            proof {
                assert(at == offset(p, 0, line_offset(i as int, size as int, lh as int)));
            }
            r.push(at);
            i = i + 1;
            proof {
                assert(r@ =~= line_positions(p, n as int, size as int, lh as int).subrange(0, i as int));
            }
        }
        proof {
            assert(r@ =~= line_positions(p, n as int, size as int, lh as int));
        }
        r
    }
}

impl<'a, Coord> PointCollection<Coord> for MultiLineText<'a, Coord> {
    open spec fn points_spec(&self) -> Seq<Coord> {
        seq![self.coord]
    }

    fn num_points(&self) -> usize {
        1
    }

    fn point(&self, i: usize) -> &Coord {
        &self.coord
    }
}

impl<'a, Coord> Drawable<BackendCoordOnly> for MultiLineText<'a, Coord> {
    /// Each line, in order, at its place below the anchor pixel.
    open spec fn draw_ops(&self, pos: Seq<BackendCoord>, clip: Rect, parent_dim: (u32, u32)) -> Seq<DrawOp> {
        if pos.len() == 0 {
            Seq::empty()
        } else {
            line_ops(
                self.lines@,
                line_positions(
                    pos[0],
                    self.lines@.len() as int,
                    self.style.font.size as int,
                    self.line_height as int,
                ),
                self.style,
            )
        }
    }

    fn draw<DB: DrawingBackend>(&self, pos: &Vec<BackendCoord>, clip: &Rect, backend: &mut DB, parent_dim: (u32, u32)) -> Result<
        (),
        DrawingErrorKind<DB::ErrorType>,
    > {
        if pos.len() == 0 {
            proof {
                assert(old(backend).frame() + Seq::<DrawOp>::empty() =~= old(backend).frame());
            }
            return Ok(());
        }
        let at = self.layout_lines(pos[0]);
        let style = self.style.to_backend();
        let mut i: usize = 0;
        while i < self.lines.len()
            invariant
                at@.len() == self.lines@.len(),
                at@ == line_positions(
                    pos@[0],
                    self.lines@.len() as int,
                    self.style.font.size as int,
                    self.line_height as int,
                ),
                style == self.style.backend_spec(),
                i <= self.lines.len(),
                backend.prepared(),
                backend.size_spec() == old(backend).size_spec(),
                backend.never_fails() == old(backend).never_fails(),
                pos@.len() > 0,
                backend.frame() == old(backend).frame() + line_ops(
                    self.lines@.subrange(0, i as int),
                    at@,
                    self.style,
                ),
            decreases self.lines.len() - i,
        {
            match backend.draw_text(self.lines[i].as_str(), &style, at[i]) {
                Ok(()) => {},
                Err(e) => {
                    proof {
                        let done = line_ops(self.lines@.subrange(0, i as int), at@, self.style);
                        let cur = self.lines@.subrange(0, i + 1);
                        let all = self.draw_ops(pos@, *clip, parent_dim);
                        assert(cur.drop_last() =~= self.lines@.subrange(0, i as int));
                        let step = line_ops(cur, at@, self.style).subrange(done.len() as int, (done.len() + 1) as int);
                        assert(line_ops(cur, at@, self.style) =~= done + step);
                        lemma_line_ops_prefix(self.lines@, at@, self.style, i + 1);
                        lemma_stopped_inside(old(backend).frame(), done, step, all, 0);
                        assert(backend.frame() =~= old(backend).frame() + done + step.subrange(0, 0));
                    }
                    return Err(e);
                },
            }
            proof {
                let cur = self.lines@.subrange(0, i + 1);
                assert(cur.drop_last() =~= self.lines@.subrange(0, i as int));
                assert(backend.frame() =~= old(backend).frame() + line_ops(cur, at@, self.style));
            }
            i = i + 1;
        }
        proof {
            assert(self.lines@.subrange(0, self.lines.len() as int) =~= self.lines@);
        }
        Ok(())
    }
}

/// Why measuring a text failed.
#[derive(Debug)]
pub enum TextLayoutError {
    /// The font could not be loaded; the loader's message
    FontLoad(String),
    /// The font could not lay the text out
    Layout,
}

/// `v` kept within `[-i32::MAX, i32::MAX]`.
pub open spec fn clamp_sym(v: int) -> int {
    clamp_int(v, -(i32::MAX as int), i32::MAX as int)
}

/// The size of `v`.
pub open spec fn abs_int(v: int) -> int {
    if v < 0 {
        -v
    } else {
        v
    }
}

/// The pixel width and height of a text whose layout box is `b`, turned
/// by `t`.
pub open spec fn box_size(b: LayoutBox, t: FontTransform) -> (u32, u32) {
    let d = t.transform_spec(clamp_sym(b.1.0 - b.0.0), clamp_sym(b.1.1 - b.0.1));
    (abs_int(d.0) as u32, abs_int(d.1) as u32)
}

/// `text` measures `d` in a font loaded from `fb`: some font the loader can
/// give lays it out in a box of that size.
pub open spec fn measures<FB: FontBackend>(size: u32, t: FontTransform, text: Seq<char>, d: (u32, u32)) -> bool {
    exists|f: FB::Font, s: &str, b: LayoutBox|
        s@ == text && #[trigger] f.layout_spec(size, s) == Some(b) && d == #[trigger] box_size(b, t)
}

/// The width and height of the box `b` turned by `t`.
fn size_of_box(b: LayoutBox, t: FontTransform) -> (r: (u32, u32))
    ensures
        r == box_size(b, t),
{
    let w64: i64 = b.1.0 as i64 - b.0.0 as i64;
    let h64: i64 = b.1.1 as i64 - b.0.1 as i64;
    let w: i32 = if w64 > i32::MAX as i64 {
        i32::MAX
    } else if w64 < -(i32::MAX as i64) {
        -i32::MAX
    } else {
        w64 as i32
    };
    let h: i32 = if h64 > i32::MAX as i64 {
        i32::MAX
    } else if h64 < -(i32::MAX as i64) {
        -i32::MAX
    } else {
        h64 as i32
    };
    let (x, y) = t.transform(w, h);
    let ax: u32 = if x < 0 {
        (-(x as i64)) as u32
    } else {
        x as u32
    };
    let ay: u32 = if y < 0 {
        (-(y as i64)) as u32
    } else {
        y as u32
    };
    (ax, ay)
}

impl<'a, Coord> MultiLineText<'a, Coord> {
    /// The width and height of `text` in this element's font, loaded from
    /// `font_backend` and turned by the font's transform.
    pub fn compute_bounding_box_size<FB: FontBackend>(&self, text: &str, font_backend: &FB) -> (r: Result<
        (u32, u32),
        TextLayoutError,
    >)
        ensures
            r matches Ok(d) ==> measures::<FB>(
                self.style.font.size,
                self.style.font.transform,
                text@,
                d,
            ),
    {
        let font = match font_backend.load_font(&self.style.font) {
            Ok(f) => f,
            Err(m) => {
                return Err(TextLayoutError::FontLoad(m));
            },
        };
        match font.estimate_layout(self.style.font.size, text) {
            Ok(b) => {
                let d = size_of_box(b, self.style.font.transform);
                proof {
                    assert(font.layout_spec(self.style.font.size, text) == Some(b));
                }
                Ok(d)
            },
            Err(_) => Err(TextLayoutError::Layout),
        }
    }

    /// The line boxes of the text anchored at `p`: each line's box starts
    /// at the line's place and spans the line's measured size.
    fn line_boxes<FB: FontBackend>(&self, p: BackendCoord, font_backend: &FB) -> (r: Result<
        Vec<LayoutBox>,
        TextLayoutError,
    >)
        ensures
            r matches Ok(v) ==> line_boxes_spec::<FB, Coord>(self, p, v@),
    {
        let at = self.layout_lines(p);
        let mut ret: Vec<LayoutBox> = Vec::new();
        let mut i: usize = 0;
        while i < self.lines.len()
            invariant
                at@ == line_positions(
                    p,
                    self.lines@.len() as int,
                    self.style.font.size as int,
                    self.line_height as int,
                ),
                i <= self.lines.len(),
                ret@.len() == i,
                forall|j: int| 0 <= j < i ==> #[trigger] line_box_ok::<FB, Coord>(self, at@[j], j, ret@[j]),
            decreases self.lines.len() - i,
        {
            let d = self.compute_bounding_box_size(self.lines[i].as_str(), font_backend)?;
            let start = at[i];
            let end = offset_point(start, d.0 as i64, d.1 as i64);
            ret.push((start, end));
            proof {
                assert(line_box_ok::<FB, Coord>(self, at@[i as int], i as int, (start, end)));
            }
            i = i + 1;
        }
        Ok(ret)
    }

    /// Estimate the multi-line text element's dimension: the far corner of
    /// its line boxes when anchored at the origin.
    pub fn estimate_dimension<FB: FontBackend>(&self, font_backend: &FB) -> (r: Result<
        (i32, i32),
        TextLayoutError,
    >)
        ensures
            r matches Ok(m) ==> exists|v: Seq<LayoutBox>|
                #[trigger] line_boxes_spec::<FB, Coord>(self, (0i32, 0i32), v) && m == far_corner(v),
    {
        let boxes = self.line_boxes((0, 0), font_backend)?;
        let mut mx: i32 = 0;
        let mut my: i32 = 0;
        let mut i: usize = 0;
        proof {
            assert(boxes@.subrange(0, 0) =~= Seq::<LayoutBox>::empty());
        }
        while i < boxes.len()
            invariant
                i <= boxes.len(),
                (mx, my) == far_corner(boxes@.subrange(0, i as int)),
            decreases boxes.len() - i,
        {
            let c = boxes[i].1;
            if c.0 > mx {
                mx = c.0;
            }
            if c.1 > my {
                my = c.1;
            }
            proof {
                assert(boxes@.subrange(0, i + 1).drop_last() =~= boxes@.subrange(0, i as int));
            }
            i = i + 1;
        }
        proof {
            assert(boxes@.subrange(0, boxes.len() as int) =~= boxes@);
        }
        Ok((mx, my))
    }
}

/// The largest right and bottom edges of the boxes `v`, and at least 0.
pub open spec fn far_corner(v: Seq<LayoutBox>) -> (i32, i32)
    decreases v.len(),
{
    if v.len() == 0 {
        (0, 0)
    } else {
        let m = far_corner(v.drop_last());
        let c = v.last().1;
        (if c.0 > m.0 { c.0 } else { m.0 }, if c.1 > m.1 { c.1 } else { m.1 })
    }
}

/// Line `j` of `t`, starting at `start`, has the box `b`.
pub open spec fn line_box_ok<'a, FB: FontBackend, Coord>(
    t: &MultiLineText<'a, Coord>,
    start: BackendCoord,
    j: int,
    b: LayoutBox,
) -> bool {
    exists|d: (u32, u32)|
        measures::<FB>(t.style.font.size, t.style.font.transform, t.lines@[j]@, d) && b == (
            start,
            offset(start, d.0 as int, d.1 as int),
        )
}

/// `v` holds the boxes of the lines of `t` anchored at `p`, in order.
pub open spec fn line_boxes_spec<'a, FB: FontBackend, Coord>(
    t: &MultiLineText<'a, Coord>,
    p: BackendCoord,
    v: Seq<LayoutBox>,
) -> bool {
    let at = line_positions(p, t.lines@.len() as int, t.style.font.size as int, t.line_height as int);
    &&& v.len() == t.lines@.len()
    &&& forall|j: int| 0 <= j < v.len() ==> #[trigger] line_box_ok::<FB, Coord>(t, at[j], j, v[j])
}

impl<'a> MultiLineText<'a, BackendCoord> {
    /// The boxes of the lines, in order, at the element's own anchor.
    pub fn compute_line_layout<FB: FontBackend>(&self, font_backend: &FB) -> (r: Result<
        Vec<LayoutBox>,
        TextLayoutError,
    >)
        ensures
            r matches Ok(v) ==> line_boxes_spec::<FB, BackendCoord>(self, self.coord, v@),
    {
        self.line_boxes(self.coord, font_backend)
    }
}

} // verus!
