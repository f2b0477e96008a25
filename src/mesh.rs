//! The indexed mesh: a shared vertex array and triangles that name three of
//! its vertices each, with a face normal. Positions and normals are of any
//! type `V`; the mesh only guarantees that every index is valid.
use vstd::prelude::*;

verus! {

/// Why a mesh cannot be shown.
#[derive(Debug, Clone, Copy, PartialEq, Eq, Structural)]
pub enum MeshError {
    /// The mesh has no vertex, so it has no centre.
    NoVertices,
    /// Corner `corner` of triangle `triangle` names vertex `index`, which
    /// the mesh does not have.
    IndexOutOfBounds { triangle: usize, corner: usize, index: usize },
}

/// A face normal and the indices of the face's three vertices.
#[derive(Debug)]
pub struct IndexedTriangle3D<V> {
    pub normal: V,
    pub vertices_indices: [usize; 3],
}

/// A triangle with its vertices resolved.
#[derive(Debug)]
pub struct Triangle3D<V> {
    pub normal: V,
    pub vertices: [V; 3],
    pub vertices_indices: [usize; 3],
}

/// Whether every corner of `tri` names one of `vertex_count` vertices.
pub open spec fn triangle_in_bounds(vertex_count: int, tri: [usize; 3]) -> bool {
    forall|k: int| 0 <= k < 3 ==> #[trigger] tri@[k] < vertex_count
}

/// Whether every triangle of `triangles` names vertices among `vertex_count`.
pub open spec fn all_in_bounds<V>(vertex_count: int, triangles: Seq<IndexedTriangle3D<V>>) -> bool {
    forall|t: int|
        0 <= t < triangles.len() ==> triangle_in_bounds(
            vertex_count,
            #[trigger] triangles[t].vertices_indices,
        )
}

/// Whether `e` tells truly why the mesh is refused: it has no vertex, or
/// `e` names the first corner, in order of triangles and then of corners,
/// that names a vertex past `vertex_count`.
pub open spec fn explains<V>(vertex_count: int, triangles: Seq<IndexedTriangle3D<V>>, e: MeshError) -> bool {
    match e {
        MeshError::NoVertices => vertex_count == 0,
        MeshError::IndexOutOfBounds { triangle, corner, index } => {
            &&& vertex_count > 0
            &&& triangle < triangles.len()
            &&& corner < 3
            &&& index == triangles[triangle as int].vertices_indices@[corner as int]
            &&& index >= vertex_count
            &&& all_in_bounds(vertex_count, triangles.take(triangle as int))
            &&& forall|k: int|
                0 <= k < corner ==> #[trigger] triangles[triangle as int].vertices_indices@[k]
                    < vertex_count
        },
    }
}

/// Checks that a mesh of `vertex_count` vertices has some and that every
/// triangle names three of them; else reports the first fault.
pub fn check_mesh<V>(vertex_count: usize, triangles: &Vec<IndexedTriangle3D<V>>) -> (r: Result<
    (),
    MeshError,
>)
    ensures
        r is Ok <==> vertex_count > 0 && all_in_bounds(vertex_count as int, triangles@),
        r matches Err(e) ==> explains(vertex_count as int, triangles@, e),
{
    if vertex_count == 0 {
        return Err(MeshError::NoVertices);
    }
    let n = triangles.len();
    let mut t: usize = 0;
    while t < n
        invariant
            n == triangles@.len(),
            t <= n,
            vertex_count > 0,
            all_in_bounds(vertex_count as int, triangles@.take(t as int)),
        decreases n - t,
    {
        let tri = triangles[t].vertices_indices;
        let mut k: usize = 0;
        while k < 3
            invariant
                k <= 3,
                n == triangles@.len(),
                t < n,
                vertex_count > 0,
                all_in_bounds(vertex_count as int, triangles@.take(t as int)),
                tri == triangles@[t as int].vertices_indices,
                forall|c: int| 0 <= c < k ==> #[trigger] tri@[c] < vertex_count,
            decreases 3 - k,
        {
            if tri[k] >= vertex_count {
                return Err(MeshError::IndexOutOfBounds { triangle: t, corner: k, index: tri[k] });
            }
            k = k + 1;
        }
        assert forall|u: int| 0 <= u < t + 1 implies triangle_in_bounds(
            vertex_count as int,
            #[trigger] triangles@.take(t + 1)[u].vertices_indices,
        ) by {
            if u < t {
                assert(triangles@.take(t + 1)[u] == triangles@.take(t as int)[u]);
            }
        }
        t = t + 1;
    }
    assert(triangles@.take(n as int) =~= triangles@);
    Ok(())
}

/// A mesh whose triangles all name existing vertices.
pub struct IndexedMesh3D<V> {
    vertices: Vec<V>,
    triangles: Vec<IndexedTriangle3D<V>>,
}

impl<V: Copy> IndexedMesh3D<V> {
    /// The vertices, by index.
    pub closed spec fn spec_vertices(&self) -> Seq<V> {
        self.vertices@
    }

    /// The triangles, in order.
    pub closed spec fn spec_triangles(&self) -> Seq<IndexedTriangle3D<V>> {
        self.triangles@
    }

    /// There is a vertex, and every triangle names three existing ones.
    pub closed spec fn wf(&self) -> bool {
        &&& self.vertices@.len() > 0
        &&& all_in_bounds(self.vertices@.len() as int, self.triangles@)
    }

    /// Builds a mesh, refusing one without vertices or with a triangle that
    /// names a missing vertex (the error is that of `check_mesh`).
    pub fn new(vertices: Vec<V>, triangles: Vec<IndexedTriangle3D<V>>) -> (r: Result<
        Self,
        MeshError,
    >)
        ensures
            r is Ok <==> vertices@.len() > 0 && all_in_bounds(vertices@.len() as int, triangles@),
            r matches Ok(m) ==> m.wf() && m.spec_vertices() == vertices@ && m.spec_triangles()
                == triangles@,
            r matches Err(e) ==> explains(vertices@.len() as int, triangles@, e),
    {
        match check_mesh(vertices.len(), &triangles) {
            Ok(()) => Ok(IndexedMesh3D { vertices, triangles }),
            Err(e) => Err(e),
        }
    }

    pub fn vertices(&self) -> (r: &Vec<V>)
        ensures
            r@ == self.spec_vertices(),
    {
        &self.vertices
    }

    pub fn triangles(&self) -> (r: &Vec<IndexedTriangle3D<V>>)
        ensures
            r@ == self.spec_triangles(),
    {
        &self.triangles
    }

    /// Moves vertex `i` to `v`; the triangles stay as they are.
    pub fn set_vertex(&mut self, i: usize, v: V)
        requires
            old(self).wf(),
            i < old(self).spec_vertices().len(),
        ensures
            final(self).wf(),
            final(self).spec_vertices() == old(self).spec_vertices().update(i as int, v),
            final(self).spec_triangles() == old(self).spec_triangles(),
    {
        self.vertices.set(i, v);
    }

    /// Replaces the normal of triangle `t` with `n`; its indices stay.
    pub fn set_normal(&mut self, t: usize, n: V)
        requires
            old(self).wf(),
            t < old(self).spec_triangles().len(),
        ensures
            final(self).wf(),
            final(self).spec_vertices() == old(self).spec_vertices(),
            final(self).spec_triangles() == old(self).spec_triangles().update(
                t as int,
                IndexedTriangle3D { normal: n, vertices_indices: old(self).spec_triangles()[t as int].vertices_indices },
            ),
    {
        let vertices_indices = self.triangles[t].vertices_indices;
        self.triangles.set(t, IndexedTriangle3D { normal: n, vertices_indices });
        assert(all_in_bounds(self.vertices@.len() as int, self.triangles@)) by {
            assert forall|u: int| 0 <= u < self.triangles@.len() implies triangle_in_bounds(
                self.vertices@.len() as int,
                #[trigger] self.triangles@[u].vertices_indices,
            ) by {
                assert(old(self).triangles@[u].vertices_indices == self.triangles@[u].vertices_indices);
            }
        }
    }

    /// Triangle `t` with its three vertices looked up.
    pub fn get_triangle(&self, t: usize) -> (r: Triangle3D<V>)
        requires
            self.wf(),
            t < self.spec_triangles().len(),
        ensures
            r.normal == self.spec_triangles()[t as int].normal,
            r.vertices_indices == self.spec_triangles()[t as int].vertices_indices,
            forall|k: int|
                0 <= k < 3 ==> #[trigger] r.vertices@[k] == self.spec_vertices()[
                    r.vertices_indices@[k] as int
                ],
    {
        let tri = &self.triangles[t];
        let idx = tri.vertices_indices;
        assert(triangle_in_bounds(self.vertices@.len() as int, idx));
        assert(idx@[0] < self.vertices@.len() && idx@[1] < self.vertices@.len() && idx@[2]
            < self.vertices@.len());
        let vertices = [self.vertices[idx[0]], self.vertices[idx[1]], self.vertices[idx[2]]];
        Triangle3D { normal: tri.normal, vertices, vertices_indices: idx }
    }
}

} // verus!
