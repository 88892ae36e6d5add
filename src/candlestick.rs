//! The candlestick element, which shows the high/low/open/close price
use crate::backend::{DrawOp, DrawingBackend, DrawingErrorKind};
use crate::element::{lemma_stopped_at, BackendCoordOnly, Drawable, PointCollection};
use crate::points::{offset, offset_point};
use crate::rect::{BackendCoord, Rect};
use crate::style::ShapeStyle;
use std::cmp::Ordering;
use vstd::prelude::*;
use vstd::std_specs::cmp::PartialOrdSpec;

verus! {

/// The candlestick data point element
pub struct CandleStick<X, Y: PartialOrd> {
    pub style: ShapeStyle,
    pub width: u32,
    pub points: [(X, Y); 4],
}

impl<X: Clone, Y: PartialOrd> CandleStick<X, Y> {
    /// Create a new candlestick element: the points are (x, open), (x, high),
    /// (x, low) and (x, close); the gain style is used when open < close,
    /// the loss style otherwise.
    pub fn new(
        x: X,
        open: Y,
        high: Y,
        low: Y,
        close: Y,
        gain_style: ShapeStyle,
        loss_style: ShapeStyle,
        width: u32,
    ) -> (r: CandleStick<X, Y>)
        ensures
            Y::obeys_partial_cmp_spec() ==> r.style == (if open.partial_cmp_spec(&close) == Some(
                Ordering::Less,
            ) {
                gain_style
            } else {
                loss_style
            }),
            r.style == gain_style || r.style == loss_style,
            r.width == width,
            r.points@[0].1 == open,
            r.points@[1].1 == high,
            r.points@[2].1 == low,
            r.points@[3] == (x, close),
            cloned(x, r.points@[0].0),
            cloned(x, r.points@[1].0),
            cloned(x, r.points@[2].0),
    {
        let style = match open.partial_cmp(&close) {
            Some(Ordering::Less) => gain_style,
            _ => loss_style,
        };
        let x0 = x.clone();
        let x1 = x.clone();
        let x2 = x.clone();
        CandleStick { style, width, points: [(x0, open), (x1, high), (x2, low), (x, close)] }
    }
}

impl<X, Y: PartialOrd> PointCollection<(X, Y)> for CandleStick<X, Y> {
    open spec fn points_spec(&self) -> Seq<(X, Y)> {
        self.points@
    }

    fn num_points(&self) -> usize {
        4
    }

    fn point(&self, i: usize) -> &(X, Y) {
        &self.points[i]
    }
}

/// The half widths of the body left and right of the center: `w / 2` and
/// the rest.
pub open spec fn body_halves(w: int) -> (int, int) {
    (w / 2, w - w / 2)
}

impl<X, Y: PartialOrd> Drawable<BackendCoordOnly> for CandleStick<X, Y> {
    /// With `a` the upper and `d` the lower of the open and close pixels
    /// (open first when level): a line from `a` to the high pixel, a line
    /// from the low pixel to `d`, then the body from `a` moved left by half
    /// the width to `d` moved right by the rest, filled when the style is.
    open spec fn draw_ops(&self, pos: Seq<BackendCoord>, clip: Rect, parent_dim: (u32, u32)) -> Seq<DrawOp> {
        if pos.len() < 4 {
            Seq::empty()
        } else {
            let swap = pos[0].1 > pos[3].1;
            let a = if swap {
                pos[3]
            } else {
                pos[0]
            };
            let d = if swap {
                pos[0]
            } else {
                pos[3]
            };
            let (l, r) = body_halves(self.width as int);
            let style = self.style.backend_spec();
            seq![
                DrawOp::Line { from: a, to: pos[1], style },
                DrawOp::Line { from: pos[2], to: d, style },
                DrawOp::Rect {
                    upper_left: offset(a, -l, 0),
                    bottom_right: offset(d, r, 0),
                    style,
                    fill: self.style.filled,
                },
            ]
        }
    }

    fn draw<DB: DrawingBackend>(&self, pos: &Vec<BackendCoord>, clip: &Rect, backend: &mut DB, parent_dim: (u32, u32)) -> Result<
        (),
        DrawingErrorKind<DB::ErrorType>,
    > {
        if pos.len() < 4 {
            proof {
                assert(old(backend).frame() + Seq::<DrawOp>::empty() =~= old(backend).frame());
            }
            return Ok(());
        }
        let (a, d) = if pos[0].1 > pos[3].1 {
            (pos[3], pos[0])
        } else {
            (pos[0], pos[3])
        };
        let w = self.width as i64;
        let l = w / 2;
        let r = w - w / 2;
        let style = self.style.to_backend_style();
        let ghost ops = self.draw_ops(pos@, *clip, parent_dim);
        proof {
            assert(ops.subrange(0, ops.len() as int) =~= ops);
        }
        match backend.draw_line(a, pos[1], &style) {
            Ok(()) => {},
            Err(e) => {
                proof {
                    lemma_stopped_at(old(backend).frame(), ops, 0);
                    assert(backend.frame() =~= old(backend).frame() + ops.subrange(0, 0));
                }
                return Err(e);
            },
        }
        match backend.draw_line(pos[2], d, &style) {
            Ok(()) => {},
            Err(e) => {
                proof {
                    lemma_stopped_at(old(backend).frame(), ops, 1);
                    assert(backend.frame() =~= old(backend).frame() + ops.subrange(0, 1));
                }
                return Err(e);
            },
        }
        let res = backend.draw_rect(offset_point(a, -l, 0), offset_point(d, r, 0), &style, self.style.filled);
        proof {
            if res is Ok {
                assert(backend.frame() =~= old(backend).frame() + ops);
            } else {
                lemma_stopped_at(old(backend).frame(), ops, 2);
                assert(backend.frame() =~= old(backend).frame() + ops.subrange(0, 2));
            }
        }
        res
    }
}

} // verus!
