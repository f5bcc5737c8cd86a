//! The geometry kernel: a mutable mesh of vertices and triangle index
//! triples, with bounding-box selection and index-safe deletion.
//!
//! Coordinates are single-precision bit patterns (see [`crate::scalar`]);
//! the kernel compares them through the integer order key and never
//! performs floating-point arithmetic.  Transforms such as translation and
//! scaling are floating-point work, so a caller computes the transformed
//! positions and hands them back through [`Geometry::set_vertex_positions`].
use vstd::prelude::*;

use crate::document::ComponentType;
use crate::document::GLTF;
use crate::document::Target;
use crate::document::Type;
use crate::document::lemma_packer_arithmetic;
use crate::scalar::F32_MAX_FINITE;
use crate::scalar::F32_MIN_FINITE;
use crate::scalar::F32_NEG_ONE;
use crate::scalar::F32_ONE;
use crate::scalar::Real32;
use crate::scalar::f32_lt;
use crate::scalar::f32_less;
use crate::scalar::f32_max_bits;
use crate::scalar::f32_min_bits;
use vstd::bytes::spec_u16_to_le_bytes;
use vstd::bytes::spec_u32_to_le_bytes;
use vstd::bytes::u16_to_le_bytes;
use vstd::bytes::u32_to_le_bytes;

verus! {

/// One vertex: the single-precision bit patterns of its three coordinates.
#[derive(Clone, Copy, PartialEq, Eq, Structural, Debug)]
pub struct Vertex {
    pub x: u32,
    pub y: u32,
    pub z: u32,
}

/// One triangle: the indices of its three corner vertices.
#[derive(Clone, Copy, PartialEq, Eq, Structural, Debug)]
pub struct Triangle {
    pub a: u32,
    pub b: u32,
    pub c: u32,
}

/// True when every index of the triangle references one of `n` vertices.
pub open spec fn tri_in_bounds(t: Triangle, n: nat) -> bool {
    (t.a as nat) < n && (t.b as nat) < n && (t.c as nat) < n
}

/// True when the triangle references vertex index `v`.
pub open spec fn spec_tri_mentions(t: Triangle, v: u32) -> bool {
    t.a == v || t.b == v || t.c == v
}

/// The triangle with every reference to `from` rewritten to `to`.
pub open spec fn spec_remap_tri(t: Triangle, from: u32, to: u32) -> Triangle {
    Triangle {
        a: if t.a == from {
            to
        } else {
            t.a
        },
        b: if t.b == from {
            to
        } else {
            t.b
        },
        c: if t.c == from {
            to
        } else {
            t.c
        },
    }
}

/// True when the vertex lies strictly inside the box `[lower, upper]` in
/// every coordinate, under the floating-point ordering of bit patterns.
pub open spec fn spec_vertex_inside(v: Vertex, lower: Vertex, upper: Vertex) -> bool {
    f32_lt(lower.x, v.x) && f32_lt(v.x, upper.x) && f32_lt(lower.y, v.y) && f32_lt(v.y, upper.y)
        && f32_lt(lower.z, v.z) && f32_lt(v.z, upper.z)
}

/// The indices, in increasing order, of the vertices of `vs` strictly
/// inside the box.
pub open spec fn spec_selected_vertices(vs: Seq<Vertex>, lower: Vertex, upper: Vertex) -> Seq<u32>
    decreases vs.len(),
{
    if vs.len() == 0 {
        Seq::empty()
    } else {
        let prefix = spec_selected_vertices(vs.drop_last(), lower, upper);
        if spec_vertex_inside(vs.last(), lower, upper) {
            prefix.push((vs.len() - 1) as u32)
        } else {
            prefix
        }
    }
}

/// True when all three corners of the triangle are strictly inside the box.
pub open spec fn spec_triangle_inside(
    t: Triangle,
    vs: Seq<Vertex>,
    lower: Vertex,
    upper: Vertex,
) -> bool {
    spec_vertex_inside(vs[t.a as int], lower, upper) && spec_vertex_inside(
        vs[t.b as int],
        lower,
        upper,
    ) && spec_vertex_inside(vs[t.c as int], lower, upper)
}

/// The indices, in increasing order, of the triangles of `ts` all of whose
/// corners are strictly inside the box.
pub open spec fn spec_selected_triangles(
    ts: Seq<Triangle>,
    vs: Seq<Vertex>,
    lower: Vertex,
    upper: Vertex,
) -> Seq<u32>
    decreases ts.len(),
{
    if ts.len() == 0 {
        Seq::empty()
    } else {
        let prefix = spec_selected_triangles(ts.drop_last(), vs, lower, upper);
        if spec_triangle_inside(ts.last(), vs, lower, upper) {
            prefix.push((ts.len() - 1) as u32)
        } else {
            prefix
        }
    }
}


/// A vertex index is in the selected list exactly when it indexes a
/// vertex strictly inside the box, so selecting triangles by the
/// corner predicate agrees with membership in the selected vertex list.
pub proof fn lemma_selected_vertices_contains(
    vs: Seq<Vertex>,
    lower: Vertex,
    upper: Vertex,
    i: u32,
)
    requires
        vs.len() <= u32::MAX,
    ensures
        spec_selected_vertices(vs, lower, upper).contains(i) <==> ((i as int) < vs.len()
            && spec_vertex_inside(vs[i as int], lower, upper)),
    decreases vs.len(),
{
    let sel = spec_selected_vertices(vs, lower, upper);
    if vs.len() == 0 {
        assert(!sel.contains(i)) by {
            if sel.contains(i) {
                let k = choose|k: int| 0 <= k < sel.len() && sel[k] == i;
            }
        }
    } else {
        lemma_selected_vertices_contains(vs.drop_last(), lower, upper, i);
        let prefix = spec_selected_vertices(vs.drop_last(), lower, upper);
        let n = vs.len() as int;
        if spec_vertex_inside(vs.last(), lower, upper) {
            assert(sel == prefix.push((n - 1) as u32));
            if sel.contains(i) {
                let k = choose|k: int| 0 <= k < sel.len() && sel[k] == i;
                if k == sel.len() - 1 {
                    assert(i == (n - 1) as u32);
                    assert(vs[i as int] == vs.last());
                } else {
                    assert(prefix[k] == i);
                    assert(prefix.contains(i));
                    assert(vs.drop_last()[i as int] == vs[i as int]);
                }
            }
            if (i as int) < n && spec_vertex_inside(vs[i as int], lower, upper) {
                if (i as int) == n - 1 {
                    assert(sel[sel.len() - 1] == i);
                    assert(sel.contains(i));
                } else {
                    assert(vs.drop_last()[i as int] == vs[i as int]);
                    assert(prefix.contains(i));
                    let k = choose|k: int| 0 <= k < prefix.len() && prefix[k] == i;
                    assert(sel[k] == i);
                    assert(sel.contains(i));
                }
            }
        } else {
            assert(sel == prefix);
            if 0 <= (i as int) && (i as int) < n - 1 {
                assert(vs.drop_last()[i as int] == vs[i as int]);
            }
        }
    }
}

/// The triangle list after vertex `v` is deleted by swap-compaction: every
/// triangle referencing `v` is dropped, and in the remaining triangles, in
/// their original order, references to the relocated vertex `swapped` are
/// rewritten to `v`.
pub open spec fn spec_delete_vertex_tris(ts: Seq<Triangle>, v: u32, swapped: u32) -> Seq<Triangle>
    decreases ts.len(),
{
    if ts.len() == 0 {
        Seq::empty()
    } else {
        let prefix = spec_delete_vertex_tris(ts.drop_last(), v, swapped);
        if spec_tri_mentions(ts.last(), v) {
            prefix
        } else {
            prefix.push(spec_remap_tri(ts.last(), swapped, v))
        }
    }
}

/// Every triangle kept by a vertex deletion stays within the shrunk vertex
/// list: dropped references cannot survive and rewritten ones point at the
/// freed slot.
proof fn lemma_delete_vertex_tris_wf(ts: Seq<Triangle>, v: u32, swapped: u32, n: nat)
    requires
        n >= 1,
        (v as nat) < n,
        (swapped as nat) == n - 1,
        forall|i: int| 0 <= i < ts.len() ==> tri_in_bounds(#[trigger] ts[i], n),
    ensures
        forall|i: int|
            0 <= i < spec_delete_vertex_tris(ts, v, swapped).len() ==> tri_in_bounds(
                #[trigger] spec_delete_vertex_tris(ts, v, swapped)[i],
                (n - 1) as nat,
            ),
    decreases ts.len(),
{
    if ts.len() > 0 {
        assert(forall|i: int|
            0 <= i < ts.drop_last().len() ==> tri_in_bounds(#[trigger] ts.drop_last()[i], n));
        lemma_delete_vertex_tris_wf(ts.drop_last(), v, swapped, n);
        let t = ts.last();
        let prefix = spec_delete_vertex_tris(ts.drop_last(), v, swapped);
        let res = spec_delete_vertex_tris(ts, v, swapped);
        assert(tri_in_bounds(t, n));
        assert forall|i: int| 0 <= i < res.len() implies tri_in_bounds(
            res[i],
            (n - 1) as nat,
        ) by {
            if spec_tri_mentions(t, v) {
                assert(res == prefix);
                assert(tri_in_bounds(prefix[i], (n - 1) as nat));
            } else {
                assert(res == prefix.push(spec_remap_tri(t, swapped, v)));
                if i < prefix.len() {
                    assert(res[i] == prefix[i]);
                    assert(tri_in_bounds(prefix[i], (n - 1) as nat));
                } else {
                    assert(res[i] == spec_remap_tri(t, swapped, v));
                    assert(tri_in_bounds(spec_remap_tri(t, swapped, v), (n - 1) as nat));
                }
            }
        }
    }
}

/// A mutable mesh: ordered vertices and ordered triangle index triples.
pub struct Geometry {
    pub vertices: Vec<Vertex>,
    pub triangles: Vec<Triangle>,
}

impl Geometry {
    /// The index-integrity invariant: every triangle references live
    /// vertices only.
    pub open spec fn wf(&self) -> bool {
        forall|i: int|
            0 <= i < self.triangles@.len() ==> tri_in_bounds(
                #[trigger] self.triangles@[i],
                self.vertices@.len(),
            )
    }

    /// Decides [`Geometry::wf`], for callers outside verified code that
    /// must test it before editing.
    pub fn check_wf(&self) -> (r: bool)
        ensures
            r == self.wf(),
    {
        let nv = self.vertices.len();
        let n = self.triangles.len();
        let mut i: usize = 0;
        while i < n
            invariant
                n == self.triangles@.len(),
                nv == self.vertices@.len(),
                i <= n,
                forall|j: int|
                    0 <= j < i ==> tri_in_bounds(#[trigger] self.triangles@[j], nv as nat),
            decreases n - i,
        {
            let t = self.triangles[i];
            if !((t.a as usize) < nv && (t.b as usize) < nv && (t.c as usize) < nv) {
                return false;
            }
            i = i + 1;
        }
        true
    }

    /// The canonical unit cube: 8 vertices at (±1, ±1, ±1) and 12
    /// outward-wound triangles.
    pub fn cube() -> (g: Geometry)
        ensures
            g.vertices@ == spec_cube_vertices(),
            g.triangles@ == spec_cube_triangles(),
            g.vertices@.len() == 8,
            g.triangles@.len() == 12,
            g.wf(),
    {
        let mut vertices: Vec<Vertex> = Vec::new();
        vertices.push(Vertex { x: F32_NEG_ONE, y: F32_ONE, z: F32_NEG_ONE });
        vertices.push(Vertex { x: F32_NEG_ONE, y: F32_ONE, z: F32_ONE });
        vertices.push(Vertex { x: F32_NEG_ONE, y: F32_NEG_ONE, z: F32_NEG_ONE });
        vertices.push(Vertex { x: F32_NEG_ONE, y: F32_NEG_ONE, z: F32_ONE });
        vertices.push(Vertex { x: F32_ONE, y: F32_ONE, z: F32_NEG_ONE });
        vertices.push(Vertex { x: F32_ONE, y: F32_ONE, z: F32_ONE });
        vertices.push(Vertex { x: F32_ONE, y: F32_NEG_ONE, z: F32_NEG_ONE });
        vertices.push(Vertex { x: F32_ONE, y: F32_NEG_ONE, z: F32_ONE });

        let mut triangles: Vec<Triangle> = Vec::new();
        // Top
        triangles.push(Triangle { a: 1, b: 3, c: 5 });
        triangles.push(Triangle { a: 3, b: 7, c: 5 });
        // +X side
        triangles.push(Triangle { a: 4, b: 5, c: 6 });
        triangles.push(Triangle { a: 5, b: 7, c: 6 });
        // -X side
        triangles.push(Triangle { a: 0, b: 2, c: 1 });
        triangles.push(Triangle { a: 1, b: 2, c: 3 });
        // +Y side
        triangles.push(Triangle { a: 0, b: 1, c: 4 });
        triangles.push(Triangle { a: 1, b: 5, c: 4 });
        // -Y side
        triangles.push(Triangle { a: 2, b: 6, c: 3 });
        triangles.push(Triangle { a: 3, b: 6, c: 7 });
        // Bottom
        triangles.push(Triangle { a: 0, b: 4, c: 2 });
        triangles.push(Triangle { a: 2, b: 4, c: 6 });

        let g = Geometry { vertices, triangles };
        proof {
            assert(g.vertices@ =~= spec_cube_vertices());
            assert(g.triangles@ =~= spec_cube_triangles());
            assert forall|i: int| 0 <= i < g.triangles@.len() implies tri_in_bounds(
                #[trigger] g.triangles@[i],
                g.vertices@.len(),
            ) by {}
        }
        g
    }

    /// Replaces every vertex position while keeping the triangle list.
    /// Elementwise transforms (translation, scaling) are floating-point
    /// work; the caller computes the transformed positions, one per
    /// existing vertex, and hands them back here, which cannot disturb
    /// index integrity.
    pub fn set_vertex_positions(&mut self, positions: Vec<Vertex>)
        requires
            positions@.len() == old(self).vertices@.len(),
        ensures
            final(self).vertices@ == positions@,
            final(self).triangles@ == old(self).triangles@,
            old(self).wf() ==> final(self).wf(),
    {
        self.vertices = positions;
    }

    /// The indices of the vertices strictly inside the box `[lower, upper]`,
    /// in increasing order.  The caller prepares the box: it normalizes its
    /// two corners to a minimum and a maximum and widens each side by the
    /// selection tolerance, both floating-point steps.
    pub fn select_vertices(&self, lower: Vertex, upper: Vertex) -> (r: Vec<u32>)
        requires
            self.vertices@.len() <= u32::MAX,
        ensures
            r@ == spec_selected_vertices(self.vertices@, lower, upper),
    {
        let mut result: Vec<u32> = Vec::new();
        let n = self.vertices.len();
        let mut i: usize = 0;
        while i < n
            invariant
                n == self.vertices@.len(),
                n <= u32::MAX,
                i <= n,
                result@ == spec_selected_vertices(self.vertices@.take(i as int), lower, upper),
            decreases n - i,
        {
            let v = self.vertices[i];
            if vertex_inside(v, lower, upper) {
                result.push(i as u32);
            }
            proof {
                assert(self.vertices@.take(i + 1).drop_last() =~= self.vertices@.take(i as int));
                assert(self.vertices@.take(i + 1).last() == self.vertices@[i as int]);
            }
            i = i + 1;
        }
        proof {
            assert(self.vertices@.take(n as int) =~= self.vertices@);
        }
        result
    }

    /// The indices of the triangles all three of whose corners are strictly
    /// inside the box, in increasing order.  The box is prepared by the
    /// caller as for [`Geometry::select_vertices`].
    pub fn select_triangles(&self, lower: Vertex, upper: Vertex) -> (r: Vec<u32>)
        requires
            self.wf(),
            self.triangles@.len() <= u32::MAX,
        ensures
            r@ == spec_selected_triangles(self.triangles@, self.vertices@, lower, upper),
    {
        let mut result: Vec<u32> = Vec::new();
        let n = self.triangles.len();
        let mut i: usize = 0;
        while i < n
            invariant
                self.wf(),
                n == self.triangles@.len(),
                n <= u32::MAX,
                i <= n,
                result@ == spec_selected_triangles(
                    self.triangles@.take(i as int),
                    self.vertices@,
                    lower,
                    upper,
                ),
            decreases n - i,
        {
            let t = self.triangles[i];
            let inside = vertex_inside(self.vertices[t.a as usize], lower, upper) && vertex_inside(
                self.vertices[t.b as usize],
                lower,
                upper,
            ) && vertex_inside(self.vertices[t.c as usize], lower, upper);
            if inside {
                result.push(i as u32);
            }
            proof {
                assert(self.triangles@.take(i + 1).drop_last() =~= self.triangles@.take(i as int));
                assert(self.triangles@.take(i + 1).last() == self.triangles@[i as int]);
            }
            i = i + 1;
        }
        proof {
            assert(self.triangles@.take(n as int) =~= self.triangles@);
        }
        result
    }

    /// Deletes vertex `vertex` by swap-compaction: the last vertex moves
    /// into the freed slot, every triangle referencing the deleted vertex
    /// is dropped, and remaining references to the relocated vertex are
    /// rewritten to the freed slot.  Index integrity is preserved.
    pub fn delete_vertex(&mut self, vertex: u32)
        requires
            (vertex as int) < old(self).vertices@.len(),
            old(self).vertices@.len() <= u32::MAX,
        ensures
            final(self).vertices@ == old(self).vertices@.update(
                vertex as int,
                old(self).vertices@.last(),
            ).drop_last(),
            final(self).triangles@ == spec_delete_vertex_tris(
                old(self).triangles@,
                vertex,
                (old(self).vertices@.len() - 1) as u32,
            ),
            old(self).wf() ==> final(self).wf(),
    {
        let swapped: u32 = (self.vertices.len() - 1) as u32;
        self.vertices.swap_remove(vertex as usize);

        let mut kept: Vec<Triangle> = Vec::new();
        let n = self.triangles.len();
        let mut i: usize = 0;
        while i < n
            invariant
                n == self.triangles@.len(),
                self.triangles@ == old(self).triangles@,
                i <= n,
                kept@ == spec_delete_vertex_tris(self.triangles@.take(i as int), vertex, swapped),
            decreases n - i,
        {
            let t = self.triangles[i];
            if !(t.a == vertex || t.b == vertex || t.c == vertex) {
                let remapped = Triangle {
                    a: if t.a == swapped {
                        vertex
                    } else {
                        t.a
                    },
                    b: if t.b == swapped {
                        vertex
                    } else {
                        t.b
                    },
                    c: if t.c == swapped {
                        vertex
                    } else {
                        t.c
                    },
                };
                kept.push(remapped);
            }
            proof {
                assert(self.triangles@.take(i + 1).drop_last() =~= self.triangles@.take(i as int));
                assert(self.triangles@.take(i + 1).last() == self.triangles@[i as int]);
            }
            i = i + 1;
        }
        proof {
            assert(self.triangles@.take(n as int) =~= self.triangles@);
        }
        self.triangles = kept;
        proof {
            if old(self).wf() {
                lemma_delete_vertex_tris_wf(
                    old(self).triangles@,
                    vertex,
                    swapped,
                    old(self).vertices@.len(),
                );
            }
        }
    }

    /// Deletes triangle `triangle` by swap-compaction: the last triangle
    /// moves into the freed slot.
    pub fn delete_triangle(&mut self, triangle: u32)
        requires
            (triangle as int) < old(self).triangles@.len(),
        ensures
            final(self).vertices@ == old(self).vertices@,
            final(self).triangles@ == old(self).triangles@.update(
                triangle as int,
                old(self).triangles@.last(),
            ).drop_last(),
            old(self).wf() ==> final(self).wf(),
    {
        self.triangles.swap_remove(triangle as usize);
    }

    /// Deletes the given set of triangle indices, processing them from the
    /// highest index downward: each deletion relocates the last triangle,
    /// so lower indices stay valid only in that order.  The indices must
    /// be distinct and in range.
    pub fn delete_triangles(&mut self, triangles: &Vec<u32>)
        requires
            distinct_seq(triangles@),
            forall|i: int|
                0 <= i < triangles@.len() ==> (triangles@[i] as int) < old(self).triangles@.len(),
        ensures
            final(self).vertices@ == old(self).vertices@,
            final(self).triangles@ == spec_delete_triangles_seq(
                old(self).triangles@,
                spec_sort_desc(triangles@),
            ),
            final(self).triangles@.len() == old(self).triangles@.len() - triangles@.len(),
            old(self).wf() ==> final(self).wf(),
    {
        let ghost orig_len = old(self).triangles@.len();
        let sorted = sort_desc(triangles);
        proof {
            lemma_sort_desc_props(triangles@);
            assert forall|i: int| 0 <= i < sorted@.len() implies (sorted@[i] as int)
                < orig_len by {
                assert(sorted@.contains(sorted@[i]));
                assert(triangles@.contains(sorted@[i]));
                let k = choose|k: int| 0 <= k < triangles@.len() && triangles@[k] == sorted@[i];
            }
        }
        let m = sorted.len();
        let mut k: usize = 0;
        while k < m
            invariant
                m == sorted@.len(),
                k <= m,
                sorted@ == spec_sort_desc(triangles@),
                sorted_desc(sorted@),
                distinct_seq(sorted@),
                forall|i: int| 0 <= i < sorted@.len() ==> (sorted@[i] as int) < orig_len,
                self.vertices@ == old(self).vertices@,
                self.triangles@ == spec_delete_triangles_seq(
                    old(self).triangles@,
                    sorted@.take(k as int),
                ),
                self.triangles@.len() == orig_len - k,
                old(self).wf() ==> self.wf(),
            decreases m - k,
        {
            proof {
                lemma_desc_chain(sorted@, k as int);
            }
            self.delete_triangle(sorted[k]);
            proof {
                assert(sorted@.take(k + 1).drop_last() =~= sorted@.take(k as int));
                assert(sorted@.take(k + 1).last() == sorted@[k as int]);
            }
            k = k + 1;
        }
        proof {
            assert(sorted@.take(m as int) =~= sorted@);
        }
    }

    /// Deletes the given set of vertex indices, processing them from the
    /// highest index downward, with each deletion's triangle cleanup as in
    /// [`Geometry::delete_vertex`].  The indices must be distinct and in
    /// range.
    pub fn delete_vertices(&mut self, vertices: &Vec<u32>)
        requires
            distinct_seq(vertices@),
            forall|i: int|
                0 <= i < vertices@.len() ==> (vertices@[i] as int) < old(self).vertices@.len(),
            old(self).vertices@.len() <= u32::MAX,
        ensures
            final(self).vertices@ == spec_delete_vertices_seq(
                old(self).vertices@,
                old(self).triangles@,
                spec_sort_desc(vertices@),
            ).0,
            final(self).triangles@ == spec_delete_vertices_seq(
                old(self).vertices@,
                old(self).triangles@,
                spec_sort_desc(vertices@),
            ).1,
            final(self).vertices@.len() == old(self).vertices@.len() - vertices@.len(),
            old(self).wf() ==> final(self).wf(),
    {
        let ghost orig_len = old(self).vertices@.len();
        let sorted = sort_desc(vertices);
        proof {
            lemma_sort_desc_props(vertices@);
            assert forall|i: int| 0 <= i < sorted@.len() implies (sorted@[i] as int)
                < orig_len by {
                assert(sorted@.contains(sorted@[i]));
                assert(vertices@.contains(sorted@[i]));
                let k = choose|k: int| 0 <= k < vertices@.len() && vertices@[k] == sorted@[i];
            }
        }
        let m = sorted.len();
        let mut k: usize = 0;
        while k < m
            invariant
                m == sorted@.len(),
                k <= m,
                sorted@ == spec_sort_desc(vertices@),
                sorted_desc(sorted@),
                distinct_seq(sorted@),
                forall|i: int| 0 <= i < sorted@.len() ==> (sorted@[i] as int) < orig_len,
                orig_len <= u32::MAX,
                self.vertices@ == spec_delete_vertices_seq(
                    old(self).vertices@,
                    old(self).triangles@,
                    sorted@.take(k as int),
                ).0,
                self.triangles@ == spec_delete_vertices_seq(
                    old(self).vertices@,
                    old(self).triangles@,
                    sorted@.take(k as int),
                ).1,
                self.vertices@.len() == orig_len - k,
                old(self).wf() ==> self.wf(),
            decreases m - k,
        {
            proof {
                lemma_desc_chain(sorted@, k as int);
            }
            self.delete_vertex(sorted[k]);
            proof {
                assert(sorted@.take(k + 1).drop_last() =~= sorted@.take(k as int));
                assert(sorted@.take(k + 1).last() == sorted@[k as int]);
            }
            k = k + 1;
        }
        proof {
            assert(sorted@.take(m as int) =~= sorted@);
        }
    }

    /// The raw little-endian vertex buffer: three four-byte coordinate
    /// patterns per vertex, in order.
    pub fn vertices_raw(&self) -> (r: Vec<u8>)
        ensures
            r@ == spec_vertices_raw(self.vertices@),
            r@.len() == 12 * self.vertices@.len(),
    {
        let mut out: Vec<u8> = Vec::new();
        let n = self.vertices.len();
        let mut i: usize = 0;
        while i < n
            invariant
                n == self.vertices@.len(),
                i <= n,
                out@ == spec_vertices_raw(self.vertices@.take(i as int)),
                out@.len() == 12 * i,
            decreases n - i,
        {
            let v = self.vertices[i];
            let mut bx = u32_to_le_bytes(v.x);
            out.append(&mut bx);
            let mut by = u32_to_le_bytes(v.y);
            out.append(&mut by);
            let mut bz = u32_to_le_bytes(v.z);
            out.append(&mut bz);
            proof {
                assert(self.vertices@.take(i + 1).drop_last() =~= self.vertices@.take(i as int));
                assert(self.vertices@.take(i + 1).last() == self.vertices@[i as int]);
            }
            i = i + 1;
        }
        proof {
            assert(self.vertices@.take(n as int) =~= self.vertices@);
        }
        out
    }

    /// The component type under which the raw triangle buffer encodes
    /// indices: two-byte indices while the vertex count fits in sixteen
    /// bits, four-byte indices beyond that.
    pub fn triangles_raw_component_type(&self) -> (r: ComponentType)
        ensures
            r == (if self.vertices@.len() < 0x10000 {
                ComponentType::UnsignedShort
            } else {
                ComponentType::UnsignedInt
            }),
    {
        if self.vertices.len() < 0x10000 {
            ComponentType::UnsignedShort
        } else {
            ComponentType::UnsignedInt
        }
    }

    /// The raw little-endian triangle index buffer, encoded per
    /// [`Geometry::triangles_raw_component_type`].
    pub fn triangles_raw(&self) -> (r: Vec<u8>)
        ensures
            r@ == spec_triangles_raw(self.triangles@, self.vertices@.len() >= 0x10000),
            r@.len() == (if self.vertices@.len() >= 0x10000 {
                12int
            } else {
                6int
            }) * self.triangles@.len(),
    {
        let wide = self.vertices.len() >= 0x10000;
        let mut out: Vec<u8> = Vec::new();
        let n = self.triangles.len();
        let mut i: usize = 0;
        while i < n
            invariant
                n == self.triangles@.len(),
                i <= n,
                wide == (self.vertices@.len() >= 0x10000),
                out@ == spec_triangles_raw(self.triangles@.take(i as int), wide),
                out@.len() == (if wide {
                    12int
                } else {
                    6int
                }) * i,
            decreases n - i,
        {
            let t = self.triangles[i];
            if wide {
                let mut ba = u32_to_le_bytes(t.a);
                out.append(&mut ba);
                let mut bb = u32_to_le_bytes(t.b);
                out.append(&mut bb);
                let mut bc = u32_to_le_bytes(t.c);
                out.append(&mut bc);
            } else {
                let mut ba = u16_to_le_bytes(#[verifier::truncate] (t.a as u16));
                out.append(&mut ba);
                let mut bb = u16_to_le_bytes(#[verifier::truncate] (t.b as u16));
                out.append(&mut bb);
                let mut bc = u16_to_le_bytes(#[verifier::truncate] (t.c as u16));
                out.append(&mut bc);
            }
            proof {
                assert(self.triangles@.take(i + 1).drop_last() =~= self.triangles@.take(i as int));
                assert(self.triangles@.take(i + 1).last() == self.triangles@[i as int]);
            }
            i = i + 1;
        }
        proof {
            assert(self.triangles@.take(n as int) =~= self.triangles@);
        }
        out
    }

    /// The per-axis bounds of all vertices under the floating-point
    /// ordering, minimum first, reduced over the seeds that
    /// [`spec_min_bounds`] and [`spec_max_bounds`] give.
    pub fn bounds(&self) -> (r: (Vertex, Vertex))
        ensures
            r.0 == spec_min_bounds(self.vertices@),
            r.1 == spec_max_bounds(self.vertices@),
    {
        let mut bmin = Vertex { x: F32_MAX_FINITE, y: F32_MAX_FINITE, z: F32_MAX_FINITE };
        let mut bmax = Vertex { x: F32_MIN_FINITE, y: F32_MIN_FINITE, z: F32_MIN_FINITE };
        let n = self.vertices.len();
        let mut i: usize = 0;
        while i < n
            invariant
                n == self.vertices@.len(),
                i <= n,
                bmin == spec_min_bounds(self.vertices@.take(i as int)),
                bmax == spec_max_bounds(self.vertices@.take(i as int)),
            decreases n - i,
        {
            let v = self.vertices[i];
            bmin = Vertex {
                x: if f32_less(v.x, bmin.x) {
                    v.x
                } else {
                    bmin.x
                },
                y: if f32_less(v.y, bmin.y) {
                    v.y
                } else {
                    bmin.y
                },
                z: if f32_less(v.z, bmin.z) {
                    v.z
                } else {
                    bmin.z
                },
            };
            bmax = Vertex {
                x: if f32_less(bmax.x, v.x) {
                    v.x
                } else {
                    bmax.x
                },
                y: if f32_less(bmax.y, v.y) {
                    v.y
                } else {
                    bmax.y
                },
                z: if f32_less(bmax.z, v.z) {
                    v.z
                } else {
                    bmax.z
                },
            };
            proof {
                assert(self.vertices@.take(i + 1).drop_last() =~= self.vertices@.take(i as int));
                assert(self.vertices@.take(i + 1).last() == self.vertices@[i as int]);
            }
            i = i + 1;
        }
        proof {
            assert(self.vertices@.take(n as int) =~= self.vertices@);
        }
        (bmin, bmax)
    }

    /// Packs the geometry into the document and consumes it: appends the
    /// raw vertex buffer as three-component float elements, recording the
    /// per-axis bounds on the new accessor and the array-buffer hint on
    /// the new view, then appends the triangle index buffer as scalar
    /// elements of the width [`Geometry::triangles_raw_component_type`]
    /// picks, with the element-array-buffer hint.  The caller supplies the
    /// rendered number texts of the six bounds, minimum axes first, since
    /// rendering a pattern as decimal text is floating-point work.
    pub fn pack(self, gltf: &mut GLTF, min_text: Vec<Vec<u8>>, max_text: Vec<Vec<u8>>)
        requires
            self.wf(),
            min_text@.len() == 3,
            max_text@.len() == 3,
            old(gltf).buffers@.len() >= 1,
            old(gltf).glb_bin@.len() + 12 * self.vertices@.len() + 12 * self.triangles@.len()
                <= u32::MAX,
            old(gltf).buffers@[0].byte_length + 12 * self.vertices@.len() + 12
                * self.triangles@.len() <= u32::MAX,
            old(gltf).buffer_views@.len() + 2 <= u32::MAX,
        ensures
            final(gltf).glb_bin@ == old(gltf).glb_bin@ + spec_vertices_raw(self.vertices@)
                + spec_triangles_raw(self.triangles@, self.vertices@.len() >= 0x10000),
            final(gltf).buffer_views@.len() == old(gltf).buffer_views@.len() + 2,
            final(gltf).buffer_views@.take(old(gltf).buffer_views@.len() as int) == old(
                gltf,
            ).buffer_views@,
            final(gltf).buffer_views@[old(gltf).buffer_views@.len() as int].byte_offset == old(
                gltf,
            ).glb_bin@.len(),
            final(gltf).buffer_views@[old(gltf).buffer_views@.len() as int].byte_length == 12
                * self.vertices@.len(),
            final(gltf).buffer_views@[old(gltf).buffer_views@.len() as int].target == Some(
                Target::ArrayBuffer,
            ),
            final(gltf).buffer_views@[old(gltf).buffer_views@.len() + 1int].byte_offset == old(
                gltf,
            ).glb_bin@.len() + 12 * self.vertices@.len(),
            final(gltf).buffer_views@[old(gltf).buffer_views@.len() + 1int].byte_length == (if self
                .vertices@
                .len() >= 0x10000 {
                12int
            } else {
                6int
            }) * self.triangles@.len(),
            final(gltf).buffer_views@[old(gltf).buffer_views@.len() + 1int].target == Some(
                Target::ElementArrayBuffer,
            ),
            final(gltf).accessors@.len() == old(gltf).accessors@.len() + 2,
            final(gltf).accessors@.take(old(gltf).accessors@.len() as int) == old(gltf).accessors@,
            final(gltf).accessors@[old(gltf).accessors@.len() as int].type_ == Type::VEC3,
            final(gltf).accessors@[old(gltf).accessors@.len() as int].component_type
                == ComponentType::Float,
            final(gltf).accessors@[old(gltf).accessors@.len() as int].count
                == self.vertices@.len(),
            final(gltf).accessors@[old(gltf).accessors@.len() as int].buffer_view == Some(
                old(gltf).buffer_views@.len() as u32,
            ),
            final(gltf).accessors@[old(gltf).accessors@.len() as int].min@.len() == 3,
            final(gltf).accessors@[old(gltf).accessors@.len() as int].min@[0].bits
                == spec_min_bounds(self.vertices@).x,
            final(gltf).accessors@[old(gltf).accessors@.len() as int].min@[1].bits
                == spec_min_bounds(self.vertices@).y,
            final(gltf).accessors@[old(gltf).accessors@.len() as int].min@[2].bits
                == spec_min_bounds(self.vertices@).z,
            final(gltf).accessors@[old(gltf).accessors@.len() as int].min@[0].text
                == min_text@[0],
            final(gltf).accessors@[old(gltf).accessors@.len() as int].min@[1].text
                == min_text@[1],
            final(gltf).accessors@[old(gltf).accessors@.len() as int].min@[2].text
                == min_text@[2],
            final(gltf).accessors@[old(gltf).accessors@.len() as int].max@.len() == 3,
            final(gltf).accessors@[old(gltf).accessors@.len() as int].max@[0].bits
                == spec_max_bounds(self.vertices@).x,
            final(gltf).accessors@[old(gltf).accessors@.len() as int].max@[1].bits
                == spec_max_bounds(self.vertices@).y,
            final(gltf).accessors@[old(gltf).accessors@.len() as int].max@[2].bits
                == spec_max_bounds(self.vertices@).z,
            final(gltf).accessors@[old(gltf).accessors@.len() as int].max@[0].text
                == max_text@[0],
            final(gltf).accessors@[old(gltf).accessors@.len() as int].max@[1].text
                == max_text@[1],
            final(gltf).accessors@[old(gltf).accessors@.len() as int].max@[2].text
                == max_text@[2],
            final(gltf).accessors@[old(gltf).accessors@.len() + 1int].type_ == Type::SCALAR,
            final(gltf).accessors@[old(gltf).accessors@.len() + 1int].component_type == (if self
                .vertices@
                .len() < 0x10000 {
                ComponentType::UnsignedShort
            } else {
                ComponentType::UnsignedInt
            }),
            final(gltf).accessors@[old(gltf).accessors@.len() + 1int].count == 3
                * self.triangles@.len(),
            final(gltf).accessors@[old(gltf).accessors@.len() + 1int].buffer_view == Some(
                (old(gltf).buffer_views@.len() + 1int) as u32,
            ),
            final(gltf).buffers@.len() == old(gltf).buffers@.len(),
            final(gltf).buffers@[0].byte_length == old(gltf).buffers@[0].byte_length + 12
                * self.vertices@.len() + (if self.vertices@.len() >= 0x10000 {
                12int
            } else {
                6int
            }) * self.triangles@.len(),
            final(gltf).asset == old(gltf).asset,
            final(gltf).scene == old(gltf).scene,
            final(gltf).scenes == old(gltf).scenes,
            final(gltf).nodes == old(gltf).nodes,
            final(gltf).materials == old(gltf).materials,
            final(gltf).meshes == old(gltf).meshes,
    {
        let ghost nv = self.vertices@.len();
        let ghost nt = self.triangles@.len();
        let ghost wide = nv >= 0x10000;
        let ghost w: int = if wide {
            12int
        } else {
            6int
        };

        let (bmin, bmax) = self.bounds();
        let vraw = self.vertices_raw();
        proof {
            lemma_packer_arithmetic(nv as int, 12);
            assert(Type::VEC3.spec_component_count() == 3);
            assert(ComponentType::Float.spec_byte_count() == 4);
            assert((Type::VEC3.spec_component_count() * ComponentType::Float.spec_byte_count())
                as int == 12);
            assert(vraw@.len() as int == (nv as int) * 12);
            assert(vraw@.len() as int % (Type::VEC3.spec_component_count()
                * ComponentType::Float.spec_byte_count()) as int == 0);
        }
        gltf.append_to_glb_bin(vraw, Type::VEC3, ComponentType::Float);

        let mut acc = gltf.accessors.pop().unwrap();
        let mut mt = min_text;
        let min_z = mt.pop().unwrap();
        let min_y = mt.pop().unwrap();
        let min_x = mt.pop().unwrap();
        let mut minv: Vec<Real32> = Vec::new();
        minv.push(Real32 { bits: bmin.x, text: min_x });
        minv.push(Real32 { bits: bmin.y, text: min_y });
        minv.push(Real32 { bits: bmin.z, text: min_z });
        acc.min = minv;
        let mut xt = max_text;
        let max_z = xt.pop().unwrap();
        let max_y = xt.pop().unwrap();
        let max_x = xt.pop().unwrap();
        let mut maxv: Vec<Real32> = Vec::new();
        maxv.push(Real32 { bits: bmax.x, text: max_x });
        maxv.push(Real32 { bits: bmax.y, text: max_y });
        maxv.push(Real32 { bits: bmax.z, text: max_z });
        acc.max = maxv;
        gltf.accessors.push(acc);

        let mut bv = gltf.buffer_views.pop().unwrap();
        bv.target = Some(Target::ArrayBuffer);
        gltf.buffer_views.push(bv);

        let ghost mid = *gltf;

        let traw = self.triangles_raw();
        let component_type = self.triangles_raw_component_type();
        proof {
            lemma_packer_arithmetic(3 * nt as int, 2);
            lemma_packer_arithmetic(3 * nt as int, 4);
            assert(traw@.len() == w * nt);
            if nv < 0x10000 {
                assert(component_type == ComponentType::UnsignedShort);
                assert((Type::SCALAR.spec_component_count()
                    * component_type.spec_byte_count()) as int == 2);
                assert(traw@.len() as int == (3 * nt as int) * 2);
                assert(traw@.len() as int % (Type::SCALAR.spec_component_count()
                    * component_type.spec_byte_count()) as int == 0);
            } else {
                assert(component_type == ComponentType::UnsignedInt);
                assert((Type::SCALAR.spec_component_count()
                    * component_type.spec_byte_count()) as int == 4);
                assert(traw@.len() as int == (3 * nt as int) * 4);
                assert(traw@.len() as int % (Type::SCALAR.spec_component_count()
                    * component_type.spec_byte_count()) as int == 0);
            }
        }
        gltf.append_to_glb_bin(traw, Type::SCALAR, component_type);

        let mut bv2 = gltf.buffer_views.pop().unwrap();
        bv2.target = Some(Target::ElementArrayBuffer);
        gltf.buffer_views.push(bv2);

        proof {
            let m0 = old(gltf).accessors@.len() as int;
            let n0 = old(gltf).buffer_views@.len() as int;
            assert(gltf.buffer_views@.take(n0) =~= old(gltf).buffer_views@);
            assert(gltf.accessors@.take(m0) =~= old(gltf).accessors@);
            assert(gltf.accessors@.drop_last() == mid.accessors@);
            assert(gltf.accessors@[m0] == gltf.accessors@.drop_last()[m0]);
            assert(mid.accessors@[m0] == mid.accessors@.last());
            assert(gltf.buffer_views@ =~= mid.buffer_views@.push(bv2));
            assert(gltf.buffer_views@[n0] == mid.buffer_views@[n0]);
            assert(mid.buffer_views@[n0] == mid.buffer_views@.last());
            assert(gltf.buffer_views@[n0 + 1] == bv2);
        }
    }

    /// Decides whether any triangle references vertex index `v`.
    pub fn vertex_referenced(&self, v: u32) -> (r: bool)
        ensures
            r == spec_vertex_referenced(self.triangles@, v),
    {
        let n = self.triangles.len();
        let mut i: usize = 0;
        while i < n
            invariant
                n == self.triangles@.len(),
                i <= n,
                forall|j: int| 0 <= j < i ==> !spec_tri_mentions(#[trigger] self.triangles@[j], v),
            decreases n - i,
        {
            let t = self.triangles[i];
            if t.a == v || t.b == v || t.c == v {
                return true;
            }
            i = i + 1;
        }
        false
    }

    /// Removes every vertex that no triangle references, processing
    /// candidates from the highest index downward so that the
    /// swap-compaction of one deletion cannot unseat a later candidate.
    /// No triangle is dropped, and afterwards every remaining vertex is
    /// referenced by some triangle.
    pub fn delete_stray_vertices(&mut self)
        requires
            old(self).wf(),
            old(self).vertices@.len() <= u32::MAX,
        ensures
            final(self).wf(),
            final(self).triangles@.len() == old(self).triangles@.len(),
            final(self).vertices@.len() <= old(self).vertices@.len(),
            forall|v: u32|
                (v as int) < final(self).vertices@.len() ==> spec_vertex_referenced(
                    final(self).triangles@,
                    v,
                ),
    {
        let mut v: usize = self.vertices.len();
        while v > 0
            invariant
                self.wf(),
                self.triangles@.len() == old(self).triangles@.len(),
                self.vertices@.len() <= old(self).vertices@.len(),
                self.vertices@.len() <= u32::MAX,
                v <= self.vertices@.len(),
                forall|u: u32|
                    v <= (u as int) < self.vertices@.len() ==> spec_vertex_referenced(
                        self.triangles@,
                        u,
                    ),
            decreases v,
        {
            v = v - 1;
            if !self.vertex_referenced(v as u32) {
                let ghost pre = *self;
                let ghost swapped: u32 = (pre.vertices@.len() - 1) as u32;
                self.delete_vertex(v as u32);
                proof {
                    lemma_delete_unreferenced_tris(pre.triangles@, v as u32, swapped);
                    assert forall|u: u32|
                        v <= (u as int) < self.vertices@.len() implies spec_vertex_referenced(
                        self.triangles@,
                        u,
                    ) by {
                        if (u as int) == v {
                            // the relocated vertex: it was the last one, which the
                            // invariant says is referenced, and those references now
                            // point at the freed slot
                            assert((swapped as int) == self.vertices@.len());
                            assert(spec_vertex_referenced(pre.triangles@, swapped));
                            let i = choose|i: int|
                                0 <= i < pre.triangles@.len() && spec_tri_mentions(
                                    pre.triangles@[i],
                                    swapped,
                                );
                            assert(self.triangles@[i] == spec_remap_tri(
                                pre.triangles@[i],
                                swapped,
                                v as u32,
                            ));
                            assert(spec_tri_mentions(self.triangles@[i], u));
                        } else {
                            // an untouched vertex: its references survive the rewrite
                            assert(spec_vertex_referenced(pre.triangles@, u));
                            let i = choose|i: int|
                                0 <= i < pre.triangles@.len() && spec_tri_mentions(
                                    pre.triangles@[i],
                                    u,
                                );
                            assert(self.triangles@[i] == spec_remap_tri(
                                pre.triangles@[i],
                                swapped,
                                v as u32,
                            ));
                            assert(u != swapped);
                            assert(spec_tri_mentions(self.triangles@[i], u));
                        }
                    }
                }
            }
        }
    }
}

/// The vertices of the canonical unit cube.
pub open spec fn spec_cube_vertices() -> Seq<Vertex> {
    seq![
        Vertex { x: F32_NEG_ONE, y: F32_ONE, z: F32_NEG_ONE },
        Vertex { x: F32_NEG_ONE, y: F32_ONE, z: F32_ONE },
        Vertex { x: F32_NEG_ONE, y: F32_NEG_ONE, z: F32_NEG_ONE },
        Vertex { x: F32_NEG_ONE, y: F32_NEG_ONE, z: F32_ONE },
        Vertex { x: F32_ONE, y: F32_ONE, z: F32_NEG_ONE },
        Vertex { x: F32_ONE, y: F32_ONE, z: F32_ONE },
        Vertex { x: F32_ONE, y: F32_NEG_ONE, z: F32_NEG_ONE },
        Vertex { x: F32_ONE, y: F32_NEG_ONE, z: F32_ONE },
    ]
}

/// The triangles of the canonical unit cube, wound outward.
pub open spec fn spec_cube_triangles() -> Seq<Triangle> {
    seq![
        Triangle { a: 1, b: 3, c: 5 },
        Triangle { a: 3, b: 7, c: 5 },
        Triangle { a: 4, b: 5, c: 6 },
        Triangle { a: 5, b: 7, c: 6 },
        Triangle { a: 0, b: 2, c: 1 },
        Triangle { a: 1, b: 2, c: 3 },
        Triangle { a: 0, b: 1, c: 4 },
        Triangle { a: 1, b: 5, c: 4 },
        Triangle { a: 2, b: 6, c: 3 },
        Triangle { a: 3, b: 6, c: 7 },
        Triangle { a: 0, b: 4, c: 2 },
        Triangle { a: 2, b: 4, c: 6 },
    ]
}

/// True when some triangle of the list references vertex index `v`.
pub open spec fn spec_vertex_referenced(ts: Seq<Triangle>, v: u32) -> bool {
    exists|i: int| 0 <= i < ts.len() && spec_tri_mentions(#[trigger] ts[i], v)
}

/// Deleting a vertex that no triangle references drops no triangle: the
/// whole list survives, reference-rewritten.
proof fn lemma_delete_unreferenced_tris(ts: Seq<Triangle>, v: u32, swapped: u32)
    requires
        !spec_vertex_referenced(ts, v),
    ensures
        spec_delete_vertex_tris(ts, v, swapped).len() == ts.len(),
        forall|i: int|
            0 <= i < ts.len() ==> spec_delete_vertex_tris(ts, v, swapped)[i] == spec_remap_tri(
                #[trigger] ts[i],
                swapped,
                v,
            ),
    decreases ts.len(),
{
    if ts.len() > 0 {
        assert(!spec_vertex_referenced(ts.drop_last(), v)) by {
            if spec_vertex_referenced(ts.drop_last(), v) {
                let i = choose|i: int|
                    0 <= i < ts.drop_last().len() && spec_tri_mentions(ts.drop_last()[i], v);
                assert(spec_tri_mentions(ts[i], v));
            }
        }
        lemma_delete_unreferenced_tris(ts.drop_last(), v, swapped);
        assert(!spec_tri_mentions(ts.last(), v)) by {
            if spec_tri_mentions(ts.last(), v) {
                assert(spec_tri_mentions(ts[ts.len() - 1], v));
            }
        }
        let prefix = spec_delete_vertex_tris(ts.drop_last(), v, swapped);
        let res = spec_delete_vertex_tris(ts, v, swapped);
        assert(res == prefix.push(spec_remap_tri(ts.last(), swapped, v)));
        assert forall|i: int| 0 <= i < ts.len() implies res[i] == spec_remap_tri(
            #[trigger] ts[i],
            swapped,
            v,
        ) by {
            if i < ts.len() - 1 {
                assert(res[i] == prefix[i]);
                assert(prefix[i] == spec_remap_tri(ts.drop_last()[i], swapped, v));
                assert(ts.drop_last()[i] == ts[i]);
            } else {
                assert(res[i] == spec_remap_tri(ts.last(), swapped, v));
            }
        }
    }
}

/// The triangle list after the indexed triangles are deleted one by one,
/// each by swap-compaction, in the order the index sequence gives.
pub open spec fn spec_delete_triangles_seq(ts: Seq<Triangle>, idxs: Seq<u32>) -> Seq<Triangle>
    decreases idxs.len(),
{
    if idxs.len() == 0 {
        ts
    } else {
        let prev = spec_delete_triangles_seq(ts, idxs.drop_last());
        prev.update(idxs.last() as int, prev.last()).drop_last()
    }
}

/// The mesh after the indexed vertices are deleted one by one, each by
/// swap-compaction with its triangle cleanup, in the order the index
/// sequence gives.
pub open spec fn spec_delete_vertices_seq(
    vs: Seq<Vertex>,
    ts: Seq<Triangle>,
    idxs: Seq<u32>,
) -> (Seq<Vertex>, Seq<Triangle>)
    decreases idxs.len(),
{
    if idxs.len() == 0 {
        (vs, ts)
    } else {
        let prev = spec_delete_vertices_seq(vs, ts, idxs.drop_last());
        let v = idxs.last();
        (
            prev.0.update(v as int, prev.0.last()).drop_last(),
            spec_delete_vertex_tris(prev.1, v, (prev.0.len() - 1) as u32),
        )
    }
}

/// True when the sequence is ordered largest first.
pub open spec fn sorted_desc(s: Seq<u32>) -> bool {
    forall|i: int, j: int| 0 <= i < j < s.len() ==> s[i] >= s[j]
}

/// True when no index occurs twice.
pub open spec fn distinct_seq(s: Seq<u32>) -> bool {
    forall|i: int, j: int| 0 <= i < j < s.len() ==> s[i] != s[j]
}

/// `x` inserted into `s` before the first element it is at least as large
/// as.
pub open spec fn spec_insert_desc(s: Seq<u32>, x: u32) -> Seq<u32>
    decreases s.len(),
{
    if s.len() == 0 {
        seq![x]
    } else if x >= s[0] {
        seq![x] + s
    } else {
        seq![s[0]] + spec_insert_desc(s.drop_first(), x)
    }
}

/// The descending insertion sort of `s`.
pub open spec fn spec_sort_desc(s: Seq<u32>) -> Seq<u32>
    decreases s.len(),
{
    if s.len() == 0 {
        Seq::empty()
    } else {
        spec_insert_desc(spec_sort_desc(s.drop_first()), s[0])
    }
}

#[verifier::spinoff_prover]
#[verifier::rlimit(50)]
proof fn lemma_insert_desc_props(s: Seq<u32>, x: u32)
    requires
        sorted_desc(s),
    ensures
        spec_insert_desc(s, x).len() == s.len() + 1,
        sorted_desc(spec_insert_desc(s, x)),
        forall|y: u32| spec_insert_desc(s, x).contains(y) <==> (y == x || s.contains(y)),
        distinct_seq(s) && !s.contains(x) ==> distinct_seq(spec_insert_desc(s, x)),
    decreases s.len(),
{
    let r = spec_insert_desc(s, x);
    if s.len() == 0 {
        assert forall|y: u32| r.contains(y) <==> (y == x || s.contains(y)) by {
            assert(r[0] == x);
            if y == x {
                assert(r.contains(y));
            }
            if r.contains(y) {
                let i = choose|i: int| 0 <= i < r.len() && r[i] == y;
                assert(i == 0);
            }
        }
    } else if x >= s[0] {
        assert forall|i: int, j: int| 0 <= i < j < r.len() implies r[i] >= r[j] by {
            if i == 0 {
                assert(r[j] == s[j - 1]);
                if j > 1 {
                    assert(s[0] >= s[j - 1]);
                }
            } else {
                assert(r[i] == s[i - 1] && r[j] == s[j - 1]);
            }
        }
        assert forall|y: u32| r.contains(y) <==> (y == x || s.contains(y)) by {
            if y == x {
                assert(r[0] == y);
            }
            if s.contains(y) {
                let i = choose|i: int| 0 <= i < s.len() && s[i] == y;
                assert(r[i + 1] == y);
            }
            if r.contains(y) {
                let i = choose|i: int| 0 <= i < r.len() && r[i] == y;
                if i > 0 {
                    assert(s[i - 1] == y);
                }
            }
        }
        if distinct_seq(s) && !s.contains(x) {
            assert forall|i: int, j: int| 0 <= i < j < r.len() implies r[i] != r[j] by {
                if i == 0 {
                    assert(r[j] == s[j - 1]);
                    assert(s.contains(s[j - 1]));
                } else {
                    assert(r[i] == s[i - 1] && r[j] == s[j - 1]);
                }
            }
        }
    } else {
        assert(forall|i: int, j: int|
            0 <= i < j < s.drop_first().len() ==> s.drop_first()[i] >= s.drop_first()[j]);
        lemma_insert_desc_props(s.drop_first(), x);
        let inner = spec_insert_desc(s.drop_first(), x);
        assert(r == seq![s[0]] + inner);
        assert forall|i: int, j: int| 0 <= i < j < r.len() implies r[i] >= r[j] by {
            if i == 0 {
                assert(r[j] == inner[j - 1]);
                assert(inner.contains(inner[j - 1]));
                let y = inner[j - 1];
                if y == x {
                    assert(s[0] >= y);
                } else {
                    assert(s.drop_first().contains(y));
                    let k = choose|k: int|
                        0 <= k < s.drop_first().len() && s.drop_first()[k] == y;
                    assert(s[k + 1] == y);
                    assert(s[0] >= s[k + 1]);
                }
            } else {
                assert(r[i] == inner[i - 1] && r[j] == inner[j - 1]);
            }
        }
        assert forall|y: u32| r.contains(y) <==> (y == x || s.contains(y)) by {
            if y == x || s.contains(y) {
                if y == s[0] {
                    assert(r[0] == y);
                } else {
                    if s.contains(y) && y != s[0] {
                        let k = choose|k: int| 0 <= k < s.len() && s[k] == y;
                        assert(s.drop_first()[k - 1] == y);
                        assert(s.drop_first().contains(y));
                    }
                    assert(y == x || s.drop_first().contains(y));
                    assert(inner.contains(y));
                    let k = choose|k: int| 0 <= k < inner.len() && inner[k] == y;
                    assert(r[k + 1] == y);
                }
            }
            if r.contains(y) {
                let i = choose|i: int| 0 <= i < r.len() && r[i] == y;
                if i == 0 {
                    assert(s[0] == y);
                } else {
                    assert(inner[i - 1] == y);
                    assert(inner.contains(y));
                    if y != x {
                        assert(s.drop_first().contains(y));
                        let k = choose|k: int| 0 <= k < s.drop_first().len() && s.drop_first()[k]
                            == y;
                        assert(s[k + 1] == y);
                    }
                }
            }
        }
        if distinct_seq(s) && !s.contains(x) {
            assert(forall|i: int, j: int|
                0 <= i < j < s.drop_first().len() ==> s.drop_first()[i] != s.drop_first()[j]);
            assert forall|y: u32| s.drop_first().contains(y) implies s.contains(y) by {
                let k = choose|k: int| 0 <= k < s.drop_first().len() && s.drop_first()[k] == y;
                assert(s[k + 1] == y);
            }
            assert(!s.drop_first().contains(x));
            assert forall|i: int, j: int| 0 <= i < j < r.len() implies r[i] != r[j] by {
                if i == 0 {
                    assert(r[j] == inner[j - 1]);
                    assert(inner.contains(inner[j - 1]));
                    if inner[j - 1] == s[0] {
                        assert(inner[j - 1] == x || s.drop_first().contains(s[0]));
                        assert(x < s[0]);
                        let k = choose|k: int|
                            0 <= k < s.drop_first().len() && s.drop_first()[k] == s[0];
                        assert(s[k + 1] == s[0]);
                        assert(false);
                    }
                } else {
                    assert(r[i] == inner[i - 1] && r[j] == inner[j - 1]);
                }
            }
        }
    }
}

#[verifier::spinoff_prover]
#[verifier::rlimit(50)]
proof fn lemma_sort_desc_props(s: Seq<u32>)
    ensures
        spec_sort_desc(s).len() == s.len(),
        sorted_desc(spec_sort_desc(s)),
        forall|y: u32| spec_sort_desc(s).contains(y) <==> s.contains(y),
        distinct_seq(s) ==> distinct_seq(spec_sort_desc(s)),
    decreases s.len(),
{
    if s.len() > 0 {
        lemma_sort_desc_props(s.drop_first());
        let inner = spec_sort_desc(s.drop_first());
        lemma_insert_desc_props(inner, s[0]);
        assert forall|y: u32| s.drop_first().contains(y) implies s.contains(y) by {
            let k = choose|k: int| 0 <= k < s.drop_first().len() && s.drop_first()[k] == y;
            assert(s[k + 1] == y);
        }
        assert(spec_sort_desc(s) == spec_insert_desc(inner, s[0]));
        assert forall|y: u32| s.contains(y) implies spec_sort_desc(s).contains(y) by {
            let k = choose|k: int| 0 <= k < s.len() && s[k] == y;
            if k > 0 {
                assert(s.drop_first()[k - 1] == y);
                assert(s.drop_first().contains(y));
                assert(inner.contains(y));
            }
            assert(spec_insert_desc(inner, s[0]).contains(y));
        }
        assert forall|y: u32| spec_sort_desc(s).contains(y) implies s.contains(y) by {
            assert(spec_insert_desc(inner, s[0]).contains(y));
            if y == s[0] {
                assert(s[0] == s[0]);
            } else {
                assert(inner.contains(y));
                assert(s.drop_first().contains(y));
            }
        }
        if distinct_seq(s) {
            assert(forall|i: int, j: int|
                0 <= i < j < s.drop_first().len() ==> s.drop_first()[i] != s.drop_first()[j]);
            if s.drop_first().contains(s[0]) {
                let k = choose|k: int| 0 <= k < s.drop_first().len() && s.drop_first()[k] == s[0];
                assert(s[k + 1] == s[0]);
                assert(false);
            }
        }
    }
}

/// In a strictly descending sequence the element at position `i` lies at
/// least `i` below the first element.
proof fn lemma_desc_chain(s: Seq<u32>, i: int)
    requires
        sorted_desc(s),
        distinct_seq(s),
        0 <= i < s.len(),
    ensures
        s[i] + i <= s[0],
    decreases i,
{
    if i > 0 {
        lemma_desc_chain(s, i - 1);
        assert(s[i - 1] >= s[i]);
        assert(s[i - 1] != s[i]);
    }
}

/// `spec_insert_desc` is insertion at the first fitting position.
proof fn lemma_insert_desc_at(s: Seq<u32>, x: u32, p: int)
    requires
        0 <= p <= s.len(),
        forall|k: int| 0 <= k < p ==> s[k] > x,
        p < s.len() ==> x >= s[p],
    ensures
        spec_insert_desc(s, x) == s.insert(p, x),
    decreases p,
{
    if p == 0 {
        if s.len() == 0 {
            assert(spec_insert_desc(s, x) =~= s.insert(0, x));
        } else {
            assert(spec_insert_desc(s, x) =~= s.insert(0, x));
        }
    } else {
        assert(s[0] > x);
        assert(forall|k: int| 0 <= k < p - 1 ==> s.drop_first()[k] == s[k + 1]);
        lemma_insert_desc_at(s.drop_first(), x, p - 1);
        assert(spec_insert_desc(s, x) =~= s.insert(p, x));
    }
}

/// Decides [`spec_insert_desc`] on vectors.
fn insert_desc(s: Vec<u32>, x: u32) -> (r: Vec<u32>)
    ensures
        r@ == spec_insert_desc(s@, x),
{
    let n = s.len();
    let mut p: usize = 0;
    while p < n && x < s[p]
        invariant
            n == s@.len(),
            p <= n,
            forall|k: int| 0 <= k < p ==> s@[k] > x,
        decreases n - p,
    {
        p = p + 1;
    }
    proof {
        lemma_insert_desc_at(s@, x, p as int);
    }
    let mut r = s;
    r.insert(p, x);
    r
}

/// Sorts indices largest first, as [`spec_sort_desc`] describes.
fn sort_desc(input: &Vec<u32>) -> (r: Vec<u32>)
    ensures
        r@ == spec_sort_desc(input@),
{
    let mut result: Vec<u32> = Vec::new();
    let n = input.len();
    let mut i: usize = n;
    while i > 0
        invariant
            i <= n,
            n == input@.len(),
            result@ == spec_sort_desc(input@.skip(i as int)),
        decreases i,
    {
        i = i - 1;
        result = insert_desc(result, input[i]);
        proof {
            assert(input@.skip(i as int).drop_first() =~= input@.skip(i as int + 1));
            assert(input@.skip(i as int)[0] == input@[i as int]);
        }
    }
    proof {
        assert(input@.skip(0) =~= input@);
    }
    result
}

/// The little-endian bytes of one vertex's three coordinate patterns.
pub open spec fn spec_vertex_bytes(v: Vertex) -> Seq<u8> {
    spec_u32_to_le_bytes(v.x) + spec_u32_to_le_bytes(v.y) + spec_u32_to_le_bytes(v.z)
}

/// The little-endian bytes of all vertices, in order.
pub open spec fn spec_vertices_raw(vs: Seq<Vertex>) -> Seq<u8>
    decreases vs.len(),
{
    if vs.len() == 0 {
        Seq::empty()
    } else {
        spec_vertices_raw(vs.drop_last()) + spec_vertex_bytes(vs.last())
    }
}

/// The little-endian bytes of one triangle's indices, two bytes per index
/// when `wide` is false, four when it is true.  A narrow encoding truncates
/// indices beyond sixteen bits, as the cast does; the packer never takes
/// that path, since it chooses the narrow encoding only when every index
/// is below the vertex count and that count fits in sixteen bits.
pub open spec fn spec_triangle_bytes(t: Triangle, wide: bool) -> Seq<u8> {
    if wide {
        spec_u32_to_le_bytes(t.a) + spec_u32_to_le_bytes(t.b) + spec_u32_to_le_bytes(t.c)
    } else {
        spec_u16_to_le_bytes(t.a as u16) + spec_u16_to_le_bytes(t.b as u16) + spec_u16_to_le_bytes(
            t.c as u16,
        )
    }
}

/// The little-endian bytes of all triangles, in order.
pub open spec fn spec_triangles_raw(ts: Seq<Triangle>, wide: bool) -> Seq<u8>
    decreases ts.len(),
{
    if ts.len() == 0 {
        Seq::empty()
    } else {
        spec_triangles_raw(ts.drop_last(), wide) + spec_triangle_bytes(ts.last(), wide)
    }
}

/// The per-axis minimum of all vertex patterns under the floating-point
/// ordering, seeded with the largest finite single-precision value.
pub open spec fn spec_min_bounds(vs: Seq<Vertex>) -> Vertex
    decreases vs.len(),
{
    if vs.len() == 0 {
        Vertex { x: F32_MAX_FINITE, y: F32_MAX_FINITE, z: F32_MAX_FINITE }
    } else {
        let p = spec_min_bounds(vs.drop_last());
        let v = vs.last();
        Vertex {
            x: f32_min_bits(p.x, v.x),
            y: f32_min_bits(p.y, v.y),
            z: f32_min_bits(p.z, v.z),
        }
    }
}

/// The per-axis maximum of all vertex patterns under the floating-point
/// ordering, seeded with the most negative finite single-precision value.
pub open spec fn spec_max_bounds(vs: Seq<Vertex>) -> Vertex
    decreases vs.len(),
{
    if vs.len() == 0 {
        Vertex { x: F32_MIN_FINITE, y: F32_MIN_FINITE, z: F32_MIN_FINITE }
    } else {
        let p = spec_max_bounds(vs.drop_last());
        let v = vs.last();
        Vertex {
            x: f32_max_bits(p.x, v.x),
            y: f32_max_bits(p.y, v.y),
            z: f32_max_bits(p.z, v.z),
        }
    }
}

/// One deletion step: a vertex deletion with its swap-compaction and
/// triangle cleanup, or a triangle deletion by swap-compaction.
#[derive(Clone, Copy, PartialEq, Eq, Structural, Debug)]
pub enum DeleteOp {
    Vertex(u32),
    Triangle(u32),
}

/// The mesh after one deletion step.
pub open spec fn spec_apply_delete(vs: Seq<Vertex>, ts: Seq<Triangle>, op: DeleteOp) -> (
    Seq<Vertex>,
    Seq<Triangle>,
) {
    match op {
        DeleteOp::Vertex(v) => (
            vs.update(v as int, vs.last()).drop_last(),
            spec_delete_vertex_tris(ts, v, (vs.len() - 1) as u32),
        ),
        DeleteOp::Triangle(t) => (vs, ts.update(t as int, ts.last()).drop_last()),
    }
}

/// True when the step's index is valid for the mesh it is applied to.
pub open spec fn spec_delete_op_valid(vs: Seq<Vertex>, ts: Seq<Triangle>, op: DeleteOp) -> bool {
    match op {
        DeleteOp::Vertex(v) => (v as int) < vs.len() && vs.len() <= u32::MAX,
        DeleteOp::Triangle(t) => (t as int) < ts.len(),
    }
}

/// The mesh after a whole sequence of deletion steps, applied in order.
pub open spec fn spec_apply_deletes(vs: Seq<Vertex>, ts: Seq<Triangle>, ops: Seq<DeleteOp>) -> (
    Seq<Vertex>,
    Seq<Triangle>,
)
    decreases ops.len(),
{
    if ops.len() == 0 {
        (vs, ts)
    } else {
        let prev = spec_apply_deletes(vs, ts, ops.drop_last());
        spec_apply_delete(prev.0, prev.1, ops.last())
    }
}

/// True when every step of the sequence is valid at its turn, which
/// processing a batch from the highest index downward guarantees.
pub open spec fn spec_deletes_valid(vs: Seq<Vertex>, ts: Seq<Triangle>, ops: Seq<DeleteOp>) -> bool
    decreases ops.len(),
{
    if ops.len() == 0 {
        true
    } else {
        let prev = spec_apply_deletes(vs, ts, ops.drop_last());
        spec_deletes_valid(vs, ts, ops.drop_last()) && spec_delete_op_valid(
            prev.0,
            prev.1,
            ops.last(),
        )
    }
}

/// Deletion safety: starting from a mesh whose triangles all reference
/// live vertices, any sequence of vertex and triangle deletions, each
/// applied to an index valid at its turn, leaves every remaining
/// triangle's indices valid against the remaining vertex list.
pub proof fn lemma_deletion_safety(vs: Seq<Vertex>, ts: Seq<Triangle>, ops: Seq<DeleteOp>)
    requires
        forall|i: int| 0 <= i < ts.len() ==> tri_in_bounds(#[trigger] ts[i], vs.len()),
        spec_deletes_valid(vs, ts, ops),
    ensures
        forall|i: int|
            0 <= i < spec_apply_deletes(vs, ts, ops).1.len() ==> tri_in_bounds(
                #[trigger] spec_apply_deletes(vs, ts, ops).1[i],
                spec_apply_deletes(vs, ts, ops).0.len(),
            ),
    decreases ops.len(),
{
    if ops.len() > 0 {
        lemma_deletion_safety(vs, ts, ops.drop_last());
        let prev = spec_apply_deletes(vs, ts, ops.drop_last());
        let res = spec_apply_deletes(vs, ts, ops);
        match ops.last() {
            DeleteOp::Vertex(v) => {
                lemma_delete_vertex_tris_wf(prev.1, v, (prev.0.len() - 1) as u32, prev.0.len());
                assert(res == spec_apply_delete(prev.0, prev.1, DeleteOp::Vertex(v)));
                assert(res.0.len() == prev.0.len() - 1);
            },
            DeleteOp::Triangle(t) => {
                assert(res == spec_apply_delete(prev.0, prev.1, DeleteOp::Triangle(t)));
                let ts2 = prev.1.update(t as int, prev.1.last()).drop_last();
                assert forall|i: int| 0 <= i < ts2.len() implies tri_in_bounds(
                    ts2[i],
                    prev.0.len(),
                ) by {
                    if i == t {
                        assert(ts2[i] == prev.1[prev.1.len() - 1]);
                    } else {
                        assert(ts2[i] == prev.1[i]);
                    }
                }
            },
        }
    }
}

/// Decides [`spec_vertex_inside`].
pub fn vertex_inside(v: Vertex, lower: Vertex, upper: Vertex) -> (r: bool)
    ensures
        r == spec_vertex_inside(v, lower, upper),
{
    f32_less(lower.x, v.x) && f32_less(v.x, upper.x) && f32_less(lower.y, v.y) && f32_less(
        v.y,
        upper.y,
    ) && f32_less(lower.z, v.z) && f32_less(v.z, upper.z)
}

} // verus!
