//! A cuboid: a six-faced solid drawn with its faces ordered back to front.
use crate::backend::{DrawOp, DrawingBackend, DrawingErrorKind};
use crate::element::{lemma_stopped_inside, BackendCoordAndZ, Drawable, PointCollection};
use crate::rect::{BackendCoord, Rect};
use crate::style::ShapeStyle;
use vstd::prelude::*;

verus! {

/// Represents a cuboid, a six-faced solid.
pub struct Cuboid<X, Y, Z> {
    pub face_style: ShapeStyle,
    pub edge_style: ShapeStyle,
    pub vert: [(X, Y, Z); 8],
}

/// A vertex of the cuboid spanned by corners `a` and `b`: bit 2 of `i`
/// picks x from `b`, bit 1 picks y, bit 0 picks z.
pub open spec fn corner_of<X, Y, Z>(a: (X, Y, Z), b: (X, Y, Z), i: int) -> (X, Y, Z) {
    (
        if i >= 4 {
            b.0
        } else {
            a.0
        },
        if i % 4 >= 2 {
            b.1
        } else {
            a.1
        },
        if i % 2 == 1 {
            b.2
        } else {
            a.2
        },
    )
}

/// The components of `r` are clones of those of `c`.
pub open spec fn cloned_vertex<X: Clone, Y: Clone, Z: Clone>(c: (X, Y, Z), r: (X, Y, Z)) -> bool {
    cloned(c.0, r.0) && cloned(c.1, r.1) && cloned(c.2, r.2)
}

/// A vertex made of clones of `x`, `y` and `z`.
fn vertex<X: Clone, Y: Clone, Z: Clone>(x: &X, y: &Y, z: &Z) -> (r: (X, Y, Z))
    ensures
        cloned_vertex((*x, *y, *z), r),
{
    (x.clone(), y.clone(), z.clone())
}

impl<X: Clone, Y: Clone, Z: Clone> Cuboid<X, Y, Z> {
    /// Creates a cuboid from two opposite corners: its eight vertices, in
    /// the order of `corner_of`.
    pub fn new(corners: [(X, Y, Z); 2], face_style: ShapeStyle, edge_style: ShapeStyle) -> (r: Cuboid<X, Y, Z>)
        ensures
            r.face_style == face_style,
            r.edge_style == edge_style,
            forall|i: int|
                0 <= i < 8 ==> cloned_vertex(
                    corner_of(corners@[0], corners@[1], i),
                    #[trigger] r.vert@[i],
                ),
    {
        let a = &corners[0];
        let b = &corners[1];
        let v0 = vertex(&a.0, &a.1, &a.2);
        let v1 = vertex(&a.0, &a.1, &b.2);
        let v2 = vertex(&a.0, &b.1, &a.2);
        let v3 = vertex(&a.0, &b.1, &b.2);
        let v4 = vertex(&b.0, &a.1, &a.2);
        let v5 = vertex(&b.0, &a.1, &b.2);
        let v6 = vertex(&b.0, &b.1, &a.2);
        let v7 = vertex(&b.0, &b.1, &b.2);
        let r = Cuboid { face_style, edge_style, vert: [v0, v1, v2, v3, v4, v5, v6, v7] };
        proof {
            assert forall|i: int| 0 <= i < 8 implies cloned_vertex(
                corner_of(corners@[0], corners@[1], i),
                #[trigger] r.vert@[i],
            ) by {
                if i == 0 {
                } else if i == 1 {
                } else if i == 2 {
                } else if i == 3 {
                } else if i == 4 {
                } else if i == 5 {
                } else if i == 6 {
                } else {
                }
            }
        }
        r
    }
}

impl<X, Y, Z> PointCollection<(X, Y, Z)> for Cuboid<X, Y, Z> {
    open spec fn points_spec(&self) -> Seq<(X, Y, Z)> {
        self.vert@
    }

    fn num_points(&self) -> usize {
        8
    }

    fn point(&self, i: usize) -> &(X, Y, Z) {
        &self.vert[i]
    }
}

/// The faces of a cuboid, each by the indices of its four vertices in order
/// around the face.
pub open spec fn cuboid_faces() -> Seq<Seq<usize>> {
    seq![
        seq![0usize, 2, 6, 4],
        seq![1usize, 3, 7, 5],
        seq![0usize, 4, 5, 1],
        seq![2usize, 6, 7, 3],
        seq![0usize, 1, 3, 2],
        seq![4usize, 5, 7, 6],
    ]
}

/// The summed depth of the vertices of face `f`.
pub open spec fn face_depth(pos: Seq<(BackendCoord, i32)>, f: int) -> int {
    let face = cuboid_faces()[f];
    pos[face[0] as int].1 + pos[face[1] as int].1 + pos[face[2] as int].1 + pos[face[3] as int].1
}

/// Where a face of depth `k` goes in `order`: before the first face of
/// smaller depth, after all faces of greater or equal depth.
pub open spec fn insert_pos(order: Seq<usize>, keys: Seq<int>, k: int) -> int
    decreases order.len(),
{
    if order.len() == 0 {
        0
    } else if keys[order[0] as int] < k {
        0
    } else {
        1 + insert_pos(order.drop_first(), keys, k)
    }
}

/// The first `n` faces ordered by decreasing depth; faces of equal depth
/// keep their order.
pub open spec fn depth_order(keys: Seq<int>, n: nat) -> Seq<usize>
    decreases n,
{
    if n == 0 {
        Seq::empty()
    } else {
        let o = depth_order(keys, (n - 1) as nat);
        o.insert(insert_pos(o, keys, keys[n - 1]), (n - 1) as usize)
    }
}

/// The pixels of face `f`.
pub open spec fn face_pixels(pos: Seq<(BackendCoord, i32)>, f: int) -> Seq<BackendCoord> {
    let face = cuboid_faces()[f];
    seq![pos[face[0] as int].0, pos[face[1] as int].0, pos[face[2] as int].0, pos[face[3] as int].0]
}

/// The primitives for the faces in `order`: each face filled, then its
/// outline as a closed path.
pub open spec fn faces_ops(pos: Seq<(BackendCoord, i32)>, order: Seq<usize>, face: ShapeStyle, edge: ShapeStyle) -> Seq<DrawOp>
    decreases order.len(),
{
    if order.len() == 0 {
        Seq::empty()
    } else {
        let f = order.last() as int;
        faces_ops(pos, order.drop_last(), face, edge) + seq![
            DrawOp::Polygon { vert: face_pixels(pos, f), style: face.backend_spec() },
            DrawOp::Path {
                path: face_pixels(pos, f).push(face_pixels(pos, f)[0]),
                style: edge.backend_spec(),
            },
        ]
    }
}

/// The primitives of the first `j` faces of `order` begin those of all.
proof fn lemma_faces_ops_prefix(
    pos: Seq<(BackendCoord, i32)>,
    order: Seq<usize>,
    face: ShapeStyle,
    edge: ShapeStyle,
    j: int,
)
    requires
        0 <= j <= order.len(),
    ensures
        faces_ops(pos, order.subrange(0, j), face, edge).len() <= faces_ops(pos, order, face, edge).len(),
        faces_ops(pos, order, face, edge).subrange(
            0,
            faces_ops(pos, order.subrange(0, j), face, edge).len() as int,
        ) == faces_ops(pos, order.subrange(0, j), face, edge),
    decreases order.len(),
{
    let all = faces_ops(pos, order, face, edge);
    if j == order.len() {
        assert(order.subrange(0, j) =~= order);
        assert(all.subrange(0, all.len() as int) =~= all);
    } else {
        let dl = order.drop_last();
        lemma_faces_ops_prefix(pos, dl, face, edge, j);
        assert(dl.subrange(0, j) =~= order.subrange(0, j));
        let p = faces_ops(pos, order.subrange(0, j), face, edge);
        assert(all.subrange(0, p.len() as int) =~= faces_ops(pos, dl, face, edge).subrange(0, p.len() as int));
    }
}

/// The summed depths of the six faces.
pub open spec fn face_depths(pos: Seq<(BackendCoord, i32)>) -> Seq<int> {
    Seq::new(6, |f: int| face_depth(pos, f))
}

/// `p` is where a face of depth `k` goes in `o`.
proof fn lemma_insert_pos(o: Seq<usize>, keys: Seq<int>, k: int, p: int)
    requires
        0 <= p <= o.len(),
        forall|q: int| 0 <= q < p ==> keys[#[trigger] o[q] as int] >= k,
        p < o.len() ==> keys[o[p] as int] < k,
    ensures
        insert_pos(o, keys, k) == p,
    decreases p,
{
    if p > 0 {
        assert(keys[o[0] as int] >= k);
        let rest = o.drop_first();
        assert forall|q: int| 0 <= q < p - 1 implies keys[#[trigger] rest[q] as int] >= k by {
            assert(rest[q] == o[q + 1]);
        }
        if p - 1 < rest.len() {
            assert(rest[p - 1] == o[p]);
        }
        lemma_insert_pos(rest, keys, k, p - 1);
    }
}

/// The faces ordered by decreasing summed depth, ties in face order.
fn depth_sorted(keys: &Vec<i64>) -> (order: Vec<usize>)
    requires
        keys.len() == 6,
    ensures
        order@ == depth_order(keys@.map_values(|k: i64| k as int), 6),
        order.len() == 6,
        forall|t: int| 0 <= t < 6 ==> order[t] < 6,
{
    let ghost ks = keys@.map_values(|k: i64| k as int);
    let mut order: Vec<usize> = Vec::new();
    let mut n: usize = 0;
    while n < 6
        invariant
            keys.len() == 6,
            ks == keys@.map_values(|k: i64| k as int),
            n <= 6,
            order.len() == n,
            order@ == depth_order(ks, n as nat),
            forall|t: int| 0 <= t < order.len() ==> order[t] < n,
        decreases 6 - n,
    {
        let k = keys[n];
        let mut p: usize = 0;
        while p < order.len() && keys[order[p]] >= k
            invariant
                keys.len() == 6,
                ks == keys@.map_values(|k: i64| k as int),
                p <= order.len(),
                forall|t: int| 0 <= t < order.len() ==> order[t] < n,
                n < 6,
                forall|q: int| 0 <= q < p ==> ks[#[trigger] order@[q] as int] >= k,
            decreases order.len() - p,
        {
            p = p + 1;
        }
        let ghost before = order@;
        proof {
            lemma_insert_pos(order@, ks, k as int, p as int);
            assert(ks[n as int] == k);
        }
        order.insert(p, n);
        n = n + 1;
        proof {
            assert forall|t: int| 0 <= t < order.len() implies order[t] < n by {
                if t < p {
                    assert(order[t] == before[t]);
                } else if t > p {
                    assert(order[t] == before[t - 1]);
                }
            }
        }
    }
    order
}

/// The vertex indices of face `f`.
fn face_vertices(f: usize) -> (r: [usize; 4])
    requires
        f < 6,
    ensures
        r@ == cuboid_faces()[f as int],
{
    let r = if f == 0 {
        [0, 2, 6, 4]
    } else if f == 1 {
        [1, 3, 7, 5]
    } else if f == 2 {
        [0, 4, 5, 1]
    } else if f == 3 {
        [2, 6, 7, 3]
    } else if f == 4 {
        [0, 1, 3, 2]
    } else {
        [4, 5, 7, 6]
    };
    proof {
        assert(r@ =~= cuboid_faces()[f as int]);
    }
    r
}

impl<X, Y, Z> Drawable<BackendCoordAndZ> for Cuboid<X, Y, Z> {
    /// The six faces, deepest first (by the summed depth of their vertices,
    /// ties in face order): each filled in the face style, then outlined in
    /// the edge style. Ordering whole faces by summed depth approximates
    /// back-to-front painting; it is not exact for every configuration.
    open spec fn draw_ops(&self, pos: Seq<(BackendCoord, i32)>, clip: Rect, parent_dim: (u32, u32)) -> Seq<DrawOp> {
        if pos.len() < 8 {
            Seq::empty()
        } else {
            faces_ops(
                pos,
                depth_order(face_depths(pos), 6),
                self.face_style,
                self.edge_style,
            )
        }
    }

    fn draw<DB: DrawingBackend>(
        &self,
        pos: &Vec<(BackendCoord, i32)>,
        clip: &Rect,
        backend: &mut DB,
        parent_dim: (u32, u32),
    ) -> Result<(), DrawingErrorKind<DB::ErrorType>> {
        if pos.len() < 8 {
            proof {
                assert(old(backend).frame() + Seq::<DrawOp>::empty() =~= old(backend).frame());
            }
            return Ok(());
        }
        let mut keys: Vec<i64> = Vec::new();
        let mut f: usize = 0;
        while f < 6
            invariant
                pos.len() >= 8,
                f <= 6,
                keys.len() == f,
                forall|g: int| 0 <= g < f ==> keys[g] as int == face_depth(pos@, g),
            decreases 6 - f,
        {
            let v = face_vertices(f);
            let k = pos[v[0]].1 as i64 + pos[v[1]].1 as i64 + pos[v[2]].1 as i64 + pos[v[3]].1 as i64;
            keys.push(k);
            f = f + 1;
        }
        proof {
            assert(keys@.map_values(|k: i64| k as int) =~= face_depths(pos@));
        }
        let order = depth_sorted(&keys);
        let face = self.face_style.to_backend_style();
        let edge = self.edge_style.to_backend_style();
        let mut t: usize = 0;
        proof {
            assert(order@.subrange(0, 0) =~= Seq::<usize>::empty());
            assert(old(backend).frame() + Seq::<DrawOp>::empty() =~= old(backend).frame());
        }
        while t < 6
            invariant
                pos.len() >= 8,
                order.len() == 6,
                order@ == depth_order(face_depths(pos@), 6),
                forall|u: int| 0 <= u < 6 ==> order[u] < 6,
                face == self.face_style.backend_spec(),
                edge == self.edge_style.backend_spec(),
                t <= 6,
                backend.prepared(),
                backend.size_spec() == old(backend).size_spec(),
                backend.never_fails() == old(backend).never_fails(),
                backend.frame() == old(backend).frame() + faces_ops(
                    pos@,
                    order@.subrange(0, t as int),
                    self.face_style,
                    self.edge_style,
                ),
            decreases 6 - t,
        {
            let v = face_vertices(order[t]);
            let a = pos[v[0]].0;
            let b = pos[v[1]].0;
            let c = pos[v[2]].0;
            let d = pos[v[3]].0;
            let quad = vec![a, b, c, d];
            let outline = vec![a, b, c, d, a];
            proof {
                assert(quad@ =~= face_pixels(pos@, order[t as int] as int));
                assert(outline@ =~= face_pixels(pos@, order[t as int] as int).push(
                    face_pixels(pos@, order[t as int] as int)[0],
                ));
            }
            let ghost done = faces_ops(pos@, order@.subrange(0, t as int), self.face_style, self.edge_style);
            let ghost cur = order@.subrange(0, t + 1);
            let ghost step = faces_ops(pos@, cur, self.face_style, self.edge_style).subrange(
                done.len() as int,
                (done.len() + 2) as int,
            );
            let ghost all = self.draw_ops(pos@, *clip, parent_dim);
            proof {
                assert(cur.drop_last() =~= order@.subrange(0, t as int));
                assert(faces_ops(pos@, cur, self.face_style, self.edge_style) =~= done + step);
                lemma_faces_ops_prefix(pos@, order@, self.face_style, self.edge_style, t + 1);
            }
            match backend.fill_polygon(quad.as_slice(), &face) {
                Ok(()) => {},
                Err(e) => {
                    proof {
                        lemma_stopped_inside(old(backend).frame(), done, step, all, 0);
                        assert(backend.frame() =~= old(backend).frame() + done + step.subrange(0, 0));
                    }
                    return Err(e);
                },
            }
            match backend.draw_path(outline.as_slice(), &edge) {
                Ok(()) => {},
                Err(e) => {
                    proof {
                        lemma_stopped_inside(old(backend).frame(), done, step, all, 1);
                        assert(backend.frame() =~= old(backend).frame() + done + step.subrange(0, 1));
                    }
                    return Err(e);
                },
            }
            proof {
                let cur = order@.subrange(0, t + 1);
                assert(cur.drop_last() =~= order@.subrange(0, t as int));
                assert(backend.frame() =~= old(backend).frame() + faces_ops(
                    pos@,
                    cur,
                    self.face_style,
                    self.edge_style,
                ));
            }
            t = t + 1;
        }
        proof {
            assert(order@.subrange(0, 6) =~= order@);
        }
        Ok(())
    }
}

} // verus!
