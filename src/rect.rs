//! Axis-aligned pixel rectangles and the pure geometry on them: splitting
//! along one axis, even subdivision, grid subdivision and clamping.
use vstd::prelude::*;

verus! {

/// A pixel coordinate on the backend canvas; (0, 0) is the top-left corner.
pub type BackendCoord = (i32, i32);

/// The smaller of two mathematical integers.
pub open spec fn min_int(a: int, b: int) -> int {
    if a <= b {
        a
    } else {
        b
    }
}

/// The larger of two mathematical integers.
pub open spec fn max_int(a: int, b: int) -> int {
    if a >= b {
        a
    } else {
        b
    }
}

/// `v` clamped into `[lo, hi]` (for `lo <= hi`).
pub open spec fn clamp_int(v: int, lo: int, hi: int) -> int {
    max_int(min_int(v, hi), lo)
}

/// `v` clamped into the range of `i32`.
pub open spec fn clamp_i32(v: int) -> int {
    clamp_int(v, i32::MIN as int, i32::MAX as int)
}

/// Clamps a wide integer into the range of `i32`.
pub fn saturate_i32(v: i64) -> (r: i32)
    ensures
        r as int == clamp_i32(v as int),
{
    if v < i32::MIN as i64 {
        i32::MIN
    } else if v > i32::MAX as i64 {
        i32::MAX
    } else {
        v as i32
    }
}

/// The representation of the rectangle in backend canvas
#[derive(Clone, Copy, Debug, PartialEq, Eq, Structural)]
pub struct Rect {
    pub x0: i32,
    pub y0: i32,
    pub x1: i32,
    pub y1: i32,
}

/// The `idx`-th of the `n + 1` cut points that divide `[from, to]` into `n`
/// contiguous segments; the first `(to - from) % n` segments get one extra pixel.
pub open spec fn even_cut(from: int, to: int, n: int, idx: int) -> int {
    from + idx * ((to - from) / n) + min_int(idx, (to - from) % n)
}

/// The sub-rectangle in row `ri`, column `ci` of an even `rows` x `cols` mesh.
pub open spec fn even_cell(r: Rect, rows: int, cols: int, ri: int, ci: int) -> Rect {
    Rect {
        x0: even_cut(r.x0 as int, r.x1 as int, cols, ci) as i32,
        y0: even_cut(r.y0 as int, r.y1 as int, rows, ri) as i32,
        x1: even_cut(r.x0 as int, r.x1 as int, cols, ci + 1) as i32,
        y1: even_cut(r.y0 as int, r.y1 as int, rows, ri + 1) as i32,
    }
}

/// The start of the `i`-th piece when a span from `lo` to `hi` is cut at `cuts`.
pub open spec fn piece_start(cuts: Seq<i32>, lo: int, i: int) -> int {
    if i == 0 {
        lo
    } else {
        cuts[i - 1] as int
    }
}

/// The end of the `i`-th piece when a span from `lo` to `hi` is cut at `cuts`.
pub open spec fn piece_end(cuts: Seq<i32>, hi: int, i: int) -> int {
    if i < cuts.len() {
        cuts[i] as int
    } else {
        hi
    }
}

/// A sequence of integers in strictly increasing order.
pub open spec fn strictly_increasing(s: Seq<i32>) -> bool {
    forall|i: int, j: int| 0 <= i < j < s.len() ==> s[i] < s[j]
}

/// The boundaries of a grid split along one axis: the lower bound, the
/// offsets (relative to `lo`) that fall strictly inside the span, sorted and
/// without repetition, then the upper bound.
pub open spec fn grid_bounds(bounds: Seq<i32>, lo: int, hi: int, breaks: Seq<i32>) -> bool {
    &&& bounds.len() >= 2
    &&& bounds[0] == lo
    &&& bounds[bounds.len() - 1] == hi
    &&& strictly_increasing(bounds.subrange(1, bounds.len() - 1))
    &&& forall|k: int|
        1 <= k < bounds.len() - 1 ==> lo < #[trigger] bounds[k] < hi && is_break(
            breaks,
            lo,
            bounds[k] as int,
        )
    &&& forall|j: int|
        0 <= j < breaks.len() && lo < #[trigger] breaks[j] + lo < hi ==> exists|k: int|
            1 <= k < bounds.len() - 1 && #[trigger] bounds[k] == breaks[j] + lo
}

/// `x` is one of the break offsets shifted by `lo`.
pub open spec fn is_break(breaks: Seq<i32>, lo: int, x: int) -> bool {
    exists|j: int| 0 <= j < breaks.len() && #[trigger] breaks[j] + lo == x
}

impl Rect {
    /// Well-formed: the lower bounds do not exceed the upper bounds.
    pub open spec fn wf(&self) -> bool {
        self.x0 <= self.x1 && self.y0 <= self.y1
    }

    /// `self` lies within `outer`.
    pub open spec fn within(&self, outer: Rect) -> bool {
        outer.x0 <= self.x0 && self.x1 <= outer.x1 && outer.y0 <= self.y0 && self.y1 <= outer.y1
    }

    /// Pixel `p` lies in the half-open rectangle.
    pub open spec fn contains(&self, p: (int, int)) -> bool {
        self.x0 <= p.0 < self.x1 && self.y0 <= p.1 < self.y1
    }

    /// The pieces of a split at `cuts`, along y when `vertical`, else along x.
    pub open spec fn split_piece(&self, cuts: Seq<i32>, vertical: bool, i: int) -> Rect {
        if vertical {
            Rect {
                x0: self.x0,
                y0: piece_start(cuts, self.y0 as int, i) as i32,
                x1: self.x1,
                y1: piece_end(cuts, self.y1 as int, i) as i32,
            }
        } else {
            Rect {
                x0: piece_start(cuts, self.x0 as int, i) as i32,
                y0: self.y0,
                x1: piece_end(cuts, self.x1 as int, i) as i32,
                y1: self.y1,
            }
        }
    }

    /// Split the rectangle into a few smaller rectangles. The break points are
    /// absolute canvas positions on the split axis (y when `vertical`, else x);
    /// the pieces cover the span from the lower bound to the upper bound.
    pub fn split(&self, break_points: &Vec<i32>, vertical: bool) -> (r: Vec<Rect>)
        requires
            break_points.len() < usize::MAX,
        ensures
            r.len() == break_points.len() + 1,
            forall|i: int| 0 <= i < r.len() ==> r[i] == self.split_piece(break_points@, vertical, i),
    {
        let mut ret: Vec<Rect> = Vec::new();
        let (mut x0, mut y0) = (self.x0, self.y0);
        let n = break_points.len();
        let mut i: usize = 0;
        while i <= n
            invariant
                n == break_points.len(),
                n < usize::MAX,
                i <= n + 1,
                ret.len() == i,
                forall|k: int| 0 <= k < i ==> ret[k] == self.split_piece(break_points@, vertical, k),
                i <= n ==> (if vertical {
                    x0 == self.x0 && y0 == piece_start(break_points@, self.y0 as int, i as int)
                } else {
                    y0 == self.y0 && x0 == piece_start(break_points@, self.x0 as int, i as int)
                }),
            decreases n + 1 - i,
        {
            let p = if i < n {
                break_points[i]
            } else if vertical {
                self.y1
            } else {
                self.x1
            };
            let x1 = if vertical {
                self.x1
            } else {
                p
            };
            let y1 = if vertical {
                p
            } else {
                self.y1
            };
            ret.push(Rect { x0, y0, x1, y1 });
            if vertical {
                y0 = y1;
            } else {
                x0 = x1;
            }
            i = i + 1;
        }
        ret
    }

    /// Evenly split the rectangle to a row * col mesh, row by row.
    pub fn split_evenly(&self, shape: (usize, usize)) -> (r: Vec<Rect>)
        requires
            self.wf(),
            shape.0 * shape.1 <= usize::MAX,
        ensures
            r.len() == shape.0 * shape.1,
            forall|ri: int, ci: int|
                0 <= ri < shape.0 && 0 <= ci < shape.1 ==> #[trigger] r[ri * shape.1 + ci]
                    == even_cell(*self, shape.0 as int, shape.1 as int, ri, ci),
    {
        let (row, col) = shape;
        let mut ret: Vec<Rect> = Vec::new();
        let mut ri: usize = 0;
        while ri < row
            invariant
                self.wf(),
                row * col <= usize::MAX,
                ri <= row,
                ret.len() == ri * col,
                forall|a: int, b: int|
                    0 <= a < ri && 0 <= b < col ==> #[trigger] ret[a * col + b] == even_cell(
                        *self,
                        row as int,
                        col as int,
                        a,
                        b,
                    ),
            decreases row - ri,
        {
            let y0 = compute_evenly_split(self.y0, self.y1, row, ri);
            let y1 = compute_evenly_split(self.y0, self.y1, row, ri + 1);
            let mut ci: usize = 0;
            proof {
                assert((ri + 1) * col <= row * col) by (nonlinear_arith)
                    requires
                        ri < row,
                ;
                assert((ri + 1) * col == ri * col + col) by (nonlinear_arith);
            }
            while ci < col
                invariant
                    self.wf(),
                    row * col <= usize::MAX,
                    ri < row,
                    ci <= col,
                    (ri + 1) * col <= row * col,
                    (ri + 1) * col == ri * col + col,
                    ret.len() == ri * col + ci,
                    y0 as int == even_cut(self.y0 as int, self.y1 as int, row as int, ri as int),
                    y1 as int == even_cut(self.y0 as int, self.y1 as int, row as int, ri + 1),
                    forall|a: int, b: int|
                        0 <= a < ri && 0 <= b < col ==> #[trigger] ret[a * col + b] == even_cell(
                            *self,
                            row as int,
                            col as int,
                            a,
                            b,
                        ),
                    forall|b: int|
                        0 <= b < ci ==> #[trigger] ret[ri * col + b] == even_cell(
                            *self,
                            row as int,
                            col as int,
                            ri as int,
                            b,
                        ),
                decreases col - ci,
            {
                let x0 = compute_evenly_split(self.x0, self.x1, col, ci);
                let x1 = compute_evenly_split(self.x0, self.x1, col, ci + 1);
                let cell = Rect { x0, y0, x1, y1 };
                ret.push(cell);
                proof {
                    assert forall|a: int, b: int|
                        0 <= a < ri && 0 <= b < col implies #[trigger] ret[a * col + b]
                        == even_cell(*self, row as int, col as int, a, b) by {
                        assert(a * col + b < ri * col) by (nonlinear_arith)
                            requires
                                0 <= a < ri,
                                0 <= b < col,
                        ;
                    }
                }
                ci = ci + 1;
            }
            ri = ri + 1;
        }
        ret
    }

    /// Split the rectangle into a grid. The break offsets are relative to the
    /// rectangle's origin; those outside the open span are dropped, the rest
    /// are sorted and deduplicated. Cells come row by row (y outer, x inner).
    pub fn split_grid(&self, x_breaks: &Vec<i32>, y_breaks: &Vec<i32>) -> (r: Vec<Rect>)
        requires
            self.wf(),
        ensures
            exists|xs: Seq<i32>, ys: Seq<i32>|
                {
                    &&& grid_bounds(xs, self.x0 as int, self.x1 as int, x_breaks@)
                    &&& grid_bounds(ys, self.y0 as int, self.y1 as int, y_breaks@)
                    &&& r.len() == (ys.len() - 1) * (xs.len() - 1)
                    &&& forall|j: int, i: int|
                        0 <= j < ys.len() - 1 && 0 <= i < xs.len() - 1 ==> #[trigger] r[j * (
                        xs.len() - 1) + i] == (Rect { x0: xs[i], y0: ys[j], x1: xs[i + 1], y1: ys[j + 1] })
                },
    {
        let xs = grid_axis(self.x0, self.x1, x_breaks);
        let ys = grid_axis(self.y0, self.y1, y_breaks);
        let nx = xs.len() - 1;
        let ny = ys.len() - 1;
        let mut ret: Vec<Rect> = Vec::new();
        let mut j: usize = 0;
        while j < ny
            invariant
                grid_bounds(xs@, self.x0 as int, self.x1 as int, x_breaks@),
                grid_bounds(ys@, self.y0 as int, self.y1 as int, y_breaks@),
                nx == xs.len() - 1,
                ny == ys.len() - 1,
                nx <= u32::MAX,
                ny <= u32::MAX,
                j <= ny,
                ret.len() == j * nx,
                forall|a: int, b: int|
                    0 <= a < j && 0 <= b < nx ==> #[trigger] ret[a * nx + b] == (Rect {
                        x0: xs[b],
                        y0: ys[a],
                        x1: xs[b + 1],
                        y1: ys[a + 1],
                    }),
            decreases ny - j,
        {
            let mut i: usize = 0;
            proof {
                assert((j + 1) * nx == j * nx + nx) by (nonlinear_arith);
                assert(j * nx + nx <= (u32::MAX as int) * (u32::MAX as int)) by (nonlinear_arith)
                    requires
                        j < ny,
                        ny <= u32::MAX,
                        nx <= u32::MAX,
                ;
            }
            while i < nx
                invariant
                    grid_bounds(xs@, self.x0 as int, self.x1 as int, x_breaks@),
                    grid_bounds(ys@, self.y0 as int, self.y1 as int, y_breaks@),
                    nx == xs.len() - 1,
                    ny == ys.len() - 1,
                    nx <= u32::MAX,
                    ny <= u32::MAX,
                    j < ny,
                    i <= nx,
                    j * nx + nx <= (u32::MAX as int) * (u32::MAX as int),
                    ret.len() == j * nx + i,
                    forall|a: int, b: int|
                        0 <= a < j && 0 <= b < nx ==> #[trigger] ret[a * nx + b] == (Rect {
                            x0: xs[b],
                            y0: ys[a],
                            x1: xs[b + 1],
                            y1: ys[a + 1],
                        }),
                    forall|b: int|
                        0 <= b < i ==> #[trigger] ret[j * nx + b] == (Rect {
                            x0: xs[b],
                            y0: ys[j as int],
                            x1: xs[b + 1],
                            y1: ys[j + 1],
                        }),
                decreases nx - i,
            {
                ret.push(Rect { x0: xs[i], y0: ys[j], x1: xs[i + 1], y1: ys[j + 1] });
                proof {
                    assert forall|a: int, b: int|
                        0 <= a < j && 0 <= b < nx implies #[trigger] ret[a * nx + b] == (Rect {
                        x0: xs[b],
                        y0: ys[a],
                        x1: xs[b + 1],
                        y1: ys[a + 1],
                    }) by {
                        assert(a * nx + b < j * nx) by (nonlinear_arith)
                            requires
                                0 <= a < j,
                                0 <= b < nx,
                        ;
                    }
                }
                i = i + 1;
            }
            proof {
                assert forall|a: int, b: int|
                    0 <= a < j + 1 && 0 <= b < nx implies #[trigger] ret[a * nx + b] == (Rect {
                    x0: xs[b],
                    y0: ys[a],
                    x1: xs[b + 1],
                    y1: ys[a + 1],
                }) by {
                    if a == j {
                        assert(ret[j * nx + b] == ret[a * nx + b]);
                    }
                }
            }
            j = j + 1;
        }
        proof {
            assert(grid_bounds(xs@, self.x0 as int, self.x1 as int, x_breaks@));
            assert(grid_bounds(ys@, self.y0 as int, self.y1 as int, y_breaks@));
        }
        ret
    }

    /// Make the coordinate in the range of the rectangle
    pub fn truncate(&self, p: (i32, i32)) -> (r: (i32, i32))
        ensures
            r.0 == max_int(min_int(p.0 as int, self.x1 as int), self.x0 as int),
            r.1 == max_int(min_int(p.1 as int, self.y1 as int), self.y0 as int),
    {
        let x = if p.0 < self.x1 {
            p.0
        } else {
            self.x1
        };
        let y = if p.1 < self.y1 {
            p.1
        } else {
            self.y1
        };
        (
            if x > self.x0 {
                x
            } else {
                self.x0
            },
            if y > self.y0 {
                y
            } else {
                self.y0
            },
        )
    }
}

/// The `idx`-th cut point of an even split of `[from, to]` into `n` segments.
fn compute_evenly_split(from: i32, to: i32, n: usize, idx: usize) -> (r: i32)
    requires
        from <= to,
        0 < n,
        idx <= n,
    ensures
        r as int == even_cut(from as int, to as int, n as int, idx as int),
        from <= r <= to,
{
    let size: u64 = (to as i64 - from as i64) as u64;
    let nn: u64 = n as u64;
    let q: u64 = size / nn;
    let rem: u64 = size % nn;
    let ii: u64 = idx as u64;
    let m: u64 = if ii < rem {
        ii
    } else {
        rem
    };
    proof {
        lemma_even_cut_bounds(size as int, n as int, idx as int);
    }
    let off: u64 = ii * q + m;
    (from as i64 + off as i64) as i32
}

/// For `0 <= idx <= n`, the offset of the `idx`-th cut lies within `[0, size]`.
proof fn lemma_even_cut_bounds(size: int, n: int, idx: int)
    requires
        0 <= size,
        0 < n,
        0 <= idx <= n,
    ensures
        0 <= idx * (size / n) + min_int(idx, size % n) <= size,
        idx * (size / n) <= size,
{
    let q = size / n;
    let r = size % n;
    assert(size == n * q + r) by (nonlinear_arith)
        requires
            q == size / n,
            r == size % n,
            0 < n,
    ;
    assert(0 <= q && 0 <= r < n) by (nonlinear_arith)
        requires
            q == size / n,
            r == size % n,
            0 < n,
            0 <= size,
    ;
    assert(0 <= idx * q <= n * q) by (nonlinear_arith)
        requires
            0 <= idx <= n,
            0 <= q,
    ;
}

/// The sorted, deduplicated boundaries of one axis of a grid split.
fn grid_axis(lo: i32, hi: i32, breaks: &Vec<i32>) -> (r: Vec<i32>)
    requires
        lo <= hi,
    ensures
        grid_bounds(r@, lo as int, hi as int, breaks@),
        r.len() - 1 <= u32::MAX,
{
    // interior points, kept strictly increasing
    let mut inner: Vec<i32> = Vec::new();
    let mut j: usize = 0;
    while j < breaks.len()
        invariant
            lo <= hi,
            j <= breaks.len(),
            strictly_increasing(inner@),
            inner.len() == 0 || inner.len() + 1 <= hi - lo,
            forall|k: int|
                0 <= k < inner.len() ==> lo < #[trigger] inner[k] < hi && is_break(
                    breaks@.subrange(0, j as int),
                    lo as int,
                    inner[k] as int,
                ),
            forall|t: int|
                0 <= t < j && lo < #[trigger] breaks[t] + lo < hi ==> inner@.contains(
                    (breaks[t] + lo) as i32,
                ),
        decreases breaks.len() - j,
    {
        let v: i64 = breaks[j] as i64 + lo as i64;
        let ghost old_inner = inner@;
        if (lo as i64) < v && v < (hi as i64) {
            insert_sorted(&mut inner, v as i32, lo, hi);
        }
        proof {
            let pre = breaks@.subrange(0, j as int);
            let cur = breaks@.subrange(0, j + 1);
            assert forall|k: int| 0 <= k < inner.len() implies lo < #[trigger] inner[k] < hi
                && is_break(cur, lo as int, inner[k] as int) by {
                let x = inner[k];
                assert(inner@.contains(x));
                if old_inner.contains(x) {
                    let k0 = choose|k0: int| 0 <= k0 < old_inner.len() && old_inner[k0] == x;
                    assert(lo < old_inner[k0] < hi && is_break(pre, lo as int, old_inner[k0] as int));
                    let t = choose|t: int| 0 <= t < pre.len() && #[trigger] pre[t] + lo == x;
                    assert(cur[t] == pre[t]);
                } else {
                    assert(x as int == v);
                    assert(cur[j as int] + lo == x);
                }
            }
            assert forall|t: int| 0 <= t < j + 1 && lo < #[trigger] breaks[t] + lo < hi implies inner@.contains(
                (breaks[t] + lo) as i32,
            ) by {
                if t < j {
                    assert(old_inner.contains((breaks[t] + lo) as i32));
                }
            }
        }
        j = j + 1;
    }
    let mut r: Vec<i32> = Vec::new();
    r.push(lo);
    let mut k: usize = 0;
    while k < inner.len()
        invariant
            k <= inner.len(),
            r.len() == k + 1,
            r[0] == lo,
            forall|t: int| 0 <= t < k ==> r[t + 1] == inner[t],
        decreases inner.len() - k,
    {
        r.push(inner[k]);
        k = k + 1;
    }
    r.push(hi);
    proof {
        assert(breaks@.subrange(0, breaks.len() as int) =~= breaks@);
        assert(r@.subrange(1, r.len() - 1) =~= inner@);
        assert forall|t: int|
            0 <= t < breaks.len() && lo < #[trigger] breaks[t] + lo < hi implies exists|k: int|
                1 <= k < r.len() - 1 && #[trigger] r[k] == breaks[t] + lo by {
            assert(inner@.contains((breaks[t] + lo) as i32));
            let k0 = choose|k0: int| 0 <= k0 < inner.len() && inner[k0] == breaks[t] + lo;
            assert(r[k0 + 1] == inner[k0]);
        }
        assert forall|k: int| 1 <= k < r.len() - 1 implies lo < #[trigger] r[k] < hi && is_break(
            breaks@,
            lo as int,
            r[k] as int,
        ) by {
            assert(r[k] == inner[k - 1]);
        }
    }
    r
}

/// Inserts `v` into a strictly increasing vector unless it is already there.
fn insert_sorted(v_s: &mut Vec<i32>, v: i32, lo: i32, hi: i32)
    requires
        strictly_increasing(old(v_s)@),
        old(v_s).len() == 0 || old(v_s).len() + 1 <= hi - lo,
        lo < v < hi,
        forall|k: int| 0 <= k < old(v_s).len() ==> lo < #[trigger] old(v_s)[k] < hi,
    ensures
        strictly_increasing(final(v_s)@),
        final(v_s)@.contains(v),
        final(v_s).len() + 1 <= hi - lo,
        forall|x: i32| final(v_s)@.contains(x) <==> (old(v_s)@.contains(x) || x == v),
        forall|k: int| 0 <= k < final(v_s).len() ==> lo < #[trigger] final(v_s)[k] < hi,
{
    let n = v_s.len();
    let mut i: usize = 0;
    while i < n && v_s[i] < v
        invariant
            n == v_s.len(),
            i <= n,
            forall|k: int| 0 <= k < i ==> #[trigger] v_s[k] < v,
        decreases n - i,
    {
        i = i + 1;
    }
    if i < n && v_s[i] == v {
        return;
    }
    proof {
        // all old elements lie strictly between lo and hi, and v is new,
        // so there is room for one more distinct value
        lemma_strict_len_bound(v_s@, v, lo as int, hi as int, i as int);
    }
    v_s.insert(i, v);
    proof {
        assert forall|x: i32| v_s@.contains(x) <==> (old(v_s)@.contains(x) || x == v) by {
            if v_s@.contains(x) {
                let k = choose|k: int| 0 <= k < v_s.len() && v_s[k] == x;
                if k < i {
                    assert(old(v_s)[k] == x);
                } else if k > i {
                    assert(old(v_s)[k - 1] == x);
                }
            }
            if old(v_s)@.contains(x) {
                let k = choose|k: int| 0 <= k < old(v_s).len() && old(v_s)[k] == x;
                if k < i {
                    assert(v_s[k] == x);
                } else {
                    assert(v_s[k + 1] == x);
                }
            }
            if x == v {
                assert(v_s[i as int] == x);
            }
        }
    }
}

/// A strictly increasing sequence inside `(lo, hi)` that misses `v` (also in
/// `(lo, hi)`) leaves room for `v`: it has at most `hi - lo - 2` elements.
proof fn lemma_strict_len_bound(s: Seq<i32>, v: i32, lo: int, hi: int, i: int)
    requires
        strictly_increasing(s),
        lo < v < hi,
        forall|k: int| 0 <= k < s.len() ==> lo < #[trigger] s[k] < hi,
        0 <= i <= s.len(),
        forall|k: int| 0 <= k < i ==> #[trigger] s[k] < v,
        i < s.len() ==> s[i] > v,
    ensures
        s.len() + 2 <= hi - lo,
{
    // s[k] >= lo + 1 + k, with one extra step past v
    assert forall|k: int| 0 <= k < s.len() implies s[k] >= lo + 1 + k + (if k >= i {
        1int
    } else {
        0int
    }) by {
        lemma_strict_lower(s, v, lo, i, k);
    }
    if s.len() > 0 {
        let last = s.len() - 1;
        assert(s[last] >= lo + 1 + last + (if last >= i {
            1int
        } else {
            0int
        }));
        if last < i {
            assert(s[last] < v);
        }
    }
}

proof fn lemma_strict_lower(s: Seq<i32>, v: i32, lo: int, i: int, k: int)
    requires
        strictly_increasing(s),
        lo < v,
        forall|t: int| 0 <= t < s.len() ==> lo < #[trigger] s[t],
        0 <= i <= s.len(),
        forall|t: int| 0 <= t < i ==> #[trigger] s[t] < v,
        i < s.len() ==> s[i] > v,
        0 <= k < s.len(),
    ensures
        s[k] >= lo + 1 + k + (if k >= i {
            1int
        } else {
            0int
        }),
    decreases k,
{
    if k > 0 {
        lemma_strict_lower(s, v, lo, i, k - 1);
        assert(s[k - 1] < s[k]);
    }
    if k == i {
        assert(s[k] > v);
        if k > 0 {
            assert(s[k - 1] < v);
        }
    }
}

/// The length of the `i`-th segment of an even split of `[lo, hi]` into `n`.
pub open spec fn even_seg_len(lo: int, hi: int, n: int, i: int) -> int {
    even_cut(lo, hi, n, i + 1) - even_cut(lo, hi, n, i)
}

/// Pixel `p` lies in the `i`-th segment of an even split.
pub open spec fn in_even_seg(lo: int, hi: int, n: int, i: int, p: int) -> bool {
    even_cut(lo, hi, n, i) <= p < even_cut(lo, hi, n, i + 1)
}

/// Pixel `p` lies in one of the `n` segments of an even split.
pub open spec fn in_some_even_seg(lo: int, hi: int, n: int, p: int) -> bool {
    exists|i: int| 0 <= i < n && #[trigger] in_even_seg(lo, hi, n, i, p)
}

/// One step of an even split: the `i`-th segment has `(hi - lo) / n` pixels,
/// plus one for the first `(hi - lo) % n` segments.
pub proof fn lemma_even_cut_step(lo: int, hi: int, n: int, i: int)
    requires
        lo <= hi,
        0 < n,
        0 <= i < n,
    ensures
        even_seg_len(lo, hi, n, i) == (hi - lo) / n + (if i < (hi - lo) % n {
            1int
        } else {
            0int
        }),
{
    let q = (hi - lo) / n;
    assert((i + 1) * q == i * q + q) by (nonlinear_arith);
}

/// The cut points of an even split never decrease and stay within `[lo, hi]`.
pub proof fn lemma_even_cut_monotone(lo: int, hi: int, n: int, i: int, j: int)
    requires
        lo <= hi,
        0 < n,
        0 <= i <= j <= n,
    ensures
        lo <= even_cut(lo, hi, n, i) <= even_cut(lo, hi, n, j) <= hi,
    decreases j - i,
{
    lemma_even_cut_bounds(hi - lo, n, i);
    lemma_even_cut_bounds(hi - lo, n, j);
    if i < j {
        lemma_even_cut_step(lo, hi, n, i);
        lemma_even_cut_monotone(lo, hi, n, i + 1, j);
    }
}

/// The cut points of an even split start at `lo` and end at `hi`.
pub proof fn lemma_even_cut_ends(lo: int, hi: int, n: int)
    requires
        lo <= hi,
        0 < n,
    ensures
        even_cut(lo, hi, n, 0) == lo,
        even_cut(lo, hi, n, n) == hi,
{
    let q = (hi - lo) / n;
    let r = (hi - lo) % n;
    assert(hi - lo == n * q + r) by (nonlinear_arith)
        requires
            q == (hi - lo) / n,
            r == (hi - lo) % n,
            0 < n,
    ;
    assert(0 * q == 0);
    assert(r < n);
}

/// Some segment of an even split holds pixel `p`.
proof fn lemma_even_cut_cover(lo: int, hi: int, n: int, p: int, k: int)
    requires
        lo <= hi,
        0 < n,
        0 <= k <= n,
        even_cut(lo, hi, n, k) <= p < hi,
    ensures
        exists|i: int| k <= i < n && #[trigger] in_even_seg(lo, hi, n, i, p),
    decreases n - k,
{
    lemma_even_cut_ends(lo, hi, n);
    if k < n {
        if p < even_cut(lo, hi, n, k + 1) {
            assert(in_even_seg(lo, hi, n, k, p));
        } else {
            lemma_even_cut_cover(lo, hi, n, p, k + 1);
        }
    }
}

/// Splitting a span evenly into `n` segments tiles it: the cuts run from the
/// lower bound to the upper bound without decreasing, every pixel of the span
/// falls in exactly one segment, and two segments differ in length by at most
/// one pixel.
pub proof fn lemma_even_split_tiles(lo: int, hi: int, n: int)
    requires
        lo <= hi,
        0 < n,
    ensures
        even_cut(lo, hi, n, 0) == lo,
        even_cut(lo, hi, n, n) == hi,
        forall|i: int, j: int|
            0 <= i <= j <= n ==> lo <= #[trigger] even_cut(lo, hi, n, i) <= #[trigger] even_cut(
                lo,
                hi,
                n,
                j,
            ) <= hi,
        forall|p: int| lo <= p < hi ==> #[trigger] in_some_even_seg(lo, hi, n, p),
        forall|p: int, i: int, j: int|
            0 <= i < n && 0 <= j < n && #[trigger] in_even_seg(lo, hi, n, i, p)
                && #[trigger] in_even_seg(lo, hi, n, j, p) ==> i == j,
        forall|i: int, j: int|
            0 <= i < n && 0 <= j < n ==> -1 <= #[trigger] even_seg_len(lo, hi, n, i)
                - #[trigger] even_seg_len(lo, hi, n, j) <= 1,
{
    lemma_even_cut_ends(lo, hi, n);
    assert forall|i: int, j: int| 0 <= i <= j <= n implies lo <= #[trigger] even_cut(
        lo,
        hi,
        n,
        i,
    ) <= #[trigger] even_cut(lo, hi, n, j) <= hi by {
        lemma_even_cut_monotone(lo, hi, n, i, j);
    }
    assert forall|p: int| lo <= p < hi implies #[trigger] in_some_even_seg(lo, hi, n, p) by {
        lemma_even_cut_cover(lo, hi, n, p, 0);
    }
    assert forall|p: int, i: int, j: int|
        0 <= i < n && 0 <= j < n && #[trigger] in_even_seg(lo, hi, n, i, p)
            && #[trigger] in_even_seg(lo, hi, n, j, p) implies i == j by {
        if i < j {
            lemma_even_cut_monotone(lo, hi, n, i + 1, j);
        } else if j < i {
            lemma_even_cut_monotone(lo, hi, n, j + 1, i);
        }
    }
    assert forall|i: int, j: int| 0 <= i < n && 0 <= j < n implies -1 <= #[trigger] even_seg_len(
        lo,
        hi,
        n,
        i,
    ) - #[trigger] even_seg_len(lo, hi, n, j) <= 1 by {
        lemma_even_cut_step(lo, hi, n, i);
        lemma_even_cut_step(lo, hi, n, j);
    }
}

/// An even `rows` x `cols` split of a rectangle tiles it: every pixel of the
/// rectangle lies in exactly one cell, every cell lies within the rectangle,
/// and cells of one row (column) differ in width (height) by at most one.
pub proof fn lemma_split_evenly_tiles(r: Rect, rows: int, cols: int)
    requires
        r.wf(),
        0 < rows,
        0 < cols,
    ensures
        forall|ri: int, ci: int|
            0 <= ri < rows && 0 <= ci < cols ==> (#[trigger] even_cell(r, rows, cols, ri, ci)).wf()
                && even_cell(r, rows, cols, ri, ci).within(r),
        forall|p: (int, int)|
            r.contains(p) ==> exists|ri: int, ci: int|
                0 <= ri < rows && 0 <= ci < cols && (#[trigger] even_cell(
                    r,
                    rows,
                    cols,
                    ri,
                    ci,
                )).contains(p),
        forall|p: (int, int), ri: int, ci: int, rj: int, cj: int|
            0 <= ri < rows && 0 <= ci < cols && 0 <= rj < rows && 0 <= cj < cols
                && #[trigger] even_cell(r, rows, cols, ri, ci).contains(p) && #[trigger] even_cell(
                r,
                rows,
                cols,
                rj,
                cj,
            ).contains(p) ==> ri == rj && ci == cj,
        forall|ri: int, ci: int, cj: int|
            0 <= ri < rows && 0 <= ci < cols && 0 <= cj < cols ==> -1 <= (#[trigger] even_cell(
                r,
                rows,
                cols,
                ri,
                ci,
            )).x1 - even_cell(r, rows, cols, ri, ci).x0 - ((#[trigger] even_cell(
                r,
                rows,
                cols,
                ri,
                cj,
            )).x1 - even_cell(r, rows, cols, ri, cj).x0) <= 1,
        forall|ri: int, rj: int, ci: int|
            0 <= ri < rows && 0 <= rj < rows && 0 <= ci < cols ==> -1 <= (#[trigger] even_cell(
                r,
                rows,
                cols,
                ri,
                ci,
            )).y1 - even_cell(r, rows, cols, ri, ci).y0 - ((#[trigger] even_cell(
                r,
                rows,
                cols,
                rj,
                ci,
            )).y1 - even_cell(r, rows, cols, rj, ci).y0) <= 1,
{
    let (x0, x1, y0, y1) = (r.x0 as int, r.x1 as int, r.y0 as int, r.y1 as int);
    lemma_even_split_tiles(x0, x1, cols);
    lemma_even_split_tiles(y0, y1, rows);
    assert forall|ri: int, ci: int| 0 <= ri < rows && 0 <= ci < cols implies (#[trigger] even_cell(
        r,
        rows,
        cols,
        ri,
        ci,
    )).wf() && even_cell(r, rows, cols, ri, ci).within(r) by {
        lemma_even_cut_monotone(x0, x1, cols, ci, ci + 1);
        lemma_even_cut_monotone(y0, y1, rows, ri, ri + 1);
    }
    assert forall|p: (int, int)| r.contains(p) implies exists|ri: int, ci: int|
        0 <= ri < rows && 0 <= ci < cols && (#[trigger] even_cell(
            r,
            rows,
            cols,
            ri,
            ci,
        )).contains(p) by {
        assert(in_some_even_seg(x0, x1, cols, p.0));
        assert(in_some_even_seg(y0, y1, rows, p.1));
        let ci = choose|i: int| 0 <= i < cols && #[trigger] in_even_seg(x0, x1, cols, i, p.0);
        let ri = choose|i: int| 0 <= i < rows && #[trigger] in_even_seg(y0, y1, rows, i, p.1);
        lemma_even_cut_monotone(x0, x1, cols, ci, ci + 1);
        lemma_even_cut_monotone(y0, y1, rows, ri, ri + 1);
        assert(even_cell(r, rows, cols, ri, ci).contains(p));
    }
    assert forall|p: (int, int), ri: int, ci: int, rj: int, cj: int|
        0 <= ri < rows && 0 <= ci < cols && 0 <= rj < rows && 0 <= cj < cols
            && #[trigger] even_cell(r, rows, cols, ri, ci).contains(p) && #[trigger] even_cell(
            r,
            rows,
            cols,
            rj,
            cj,
        ).contains(p) implies ri == rj && ci == cj by {
        lemma_even_cut_monotone(x0, x1, cols, ci, ci + 1);
        lemma_even_cut_monotone(y0, y1, rows, ri, ri + 1);
        lemma_even_cut_monotone(x0, x1, cols, cj, cj + 1);
        lemma_even_cut_monotone(y0, y1, rows, rj, rj + 1);
    }
    assert forall|ri: int, ci: int, cj: int|
        0 <= ri < rows && 0 <= ci < cols && 0 <= cj < cols implies -1 <= (#[trigger] even_cell(
        r,
        rows,
        cols,
        ri,
        ci,
    )).x1 - even_cell(r, rows, cols, ri, ci).x0 - ((#[trigger] even_cell(
        r,
        rows,
        cols,
        ri,
        cj,
    )).x1 - even_cell(r, rows, cols, ri, cj).x0) <= 1 by {
        lemma_even_cut_monotone(x0, x1, cols, ci, ci + 1);
        lemma_even_cut_monotone(x0, x1, cols, cj, cj + 1);
        assert(-1 <= even_seg_len(x0, x1, cols, ci) - even_seg_len(x0, x1, cols, cj) <= 1);
    }
    assert forall|ri: int, rj: int, ci: int|
        0 <= ri < rows && 0 <= rj < rows && 0 <= ci < cols implies -1 <= (#[trigger] even_cell(
        r,
        rows,
        cols,
        ri,
        ci,
    )).y1 - even_cell(r, rows, cols, ri, ci).y0 - ((#[trigger] even_cell(
        r,
        rows,
        cols,
        rj,
        ci,
    )).y1 - even_cell(r, rows, cols, rj, ci).y0) <= 1 by {
        lemma_even_cut_monotone(y0, y1, rows, ri, ri + 1);
        lemma_even_cut_monotone(y0, y1, rows, rj, rj + 1);
        assert(-1 <= even_seg_len(y0, y1, rows, ri) - even_seg_len(y0, y1, rows, rj) <= 1);
    }
}

/// Without break offsets a grid axis has just its two bounds.
pub proof fn lemma_grid_bounds_no_breaks(bounds: Seq<i32>, lo: int, hi: int)
    requires
        grid_bounds(bounds, lo, hi, Seq::empty()),
    ensures
        bounds.len() == 2,
        bounds[0] == lo,
        bounds[1] == hi,
{
    if bounds.len() > 2 {
        assert(is_break(Seq::<i32>::empty(), lo, bounds[1] as int));
    }
}

/// The boundaries of a grid axis never decrease, and run from `lo` to `hi`.
pub proof fn lemma_grid_bounds_sorted(bounds: Seq<i32>, lo: int, hi: int, breaks: Seq<i32>)
    requires
        lo <= hi,
        grid_bounds(bounds, lo, hi, breaks),
    ensures
        forall|i: int| 0 <= i < bounds.len() - 1 ==> #[trigger] bounds[i] <= bounds[i + 1],
        forall|i: int| 0 <= i < bounds.len() ==> lo <= #[trigger] bounds[i] <= hi,
{
    let inner = bounds.subrange(1, bounds.len() - 1);
    assert forall|i: int| 0 <= i < bounds.len() - 1 implies #[trigger] bounds[i] <= bounds[i + 1] by {
        if i == 0 {
            if bounds.len() > 2 {
                assert(lo < bounds[1]);
            }
        } else if i + 1 == bounds.len() - 1 {
            assert(bounds[i] < hi);
        } else {
            assert(inner[i - 1] < inner[i]);
        }
    }
    assert forall|i: int| 0 <= i < bounds.len() implies lo <= #[trigger] bounds[i] <= hi by {
        if 0 < i < bounds.len() - 1 {
            assert(lo < bounds[i] < hi);
        }
    }
}

} // verus!
