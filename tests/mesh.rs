use sx3d::{check_mesh, IndexedMesh3D, IndexedTriangle3D, MeshError};

fn tri(vertices_indices: [usize; 3]) -> IndexedTriangle3D<(i32, i32)> {
    IndexedTriangle3D { normal: (0, 1), vertices_indices }
}

#[test]
fn valid_mesh_passes() {
    assert_eq!(check_mesh(4, &vec![tri([0, 1, 2]), tri([1, 2, 3])]), Ok(()));
    assert_eq!(check_mesh::<(i32, i32)>(1, &vec![]), Ok(()));
}

#[test]
fn empty_mesh_is_refused() {
    assert_eq!(check_mesh::<(i32, i32)>(0, &vec![]), Err(MeshError::NoVertices));
    assert_eq!(check_mesh(0, &vec![tri([0, 0, 0])]), Err(MeshError::NoVertices));
}

#[test]
fn first_bad_index_is_reported() {
    assert_eq!(
        check_mesh(3, &vec![tri([0, 1, 2]), tri([2, 7, 9]), tri([5, 0, 0])]),
        Err(MeshError::IndexOutOfBounds { triangle: 1, corner: 1, index: 7 })
    );
}

#[test]
fn mesh_resolves_triangle_vertices() {
    let vertices = vec![(0, 0), (10, 0), (0, 10), (10, 10)];
    let mut mesh = match IndexedMesh3D::new(vertices, vec![tri([0, 1, 2]), tri([3, 2, 1])]) {
        Ok(mesh) => mesh,
        Err(e) => panic!("{:?}", e),
    };
    let t = mesh.get_triangle(1);
    assert_eq!(t.vertices, [(10, 10), (0, 10), (10, 0)]);
    assert_eq!(t.vertices_indices, [3, 2, 1]);
    assert_eq!(t.normal, (0, 1));

    mesh.set_vertex(2, (-5, -5));
    mesh.set_normal(1, (7, 7));
    let t = mesh.get_triangle(1);
    assert_eq!(t.vertices, [(10, 10), (-5, -5), (10, 0)]);
    assert_eq!(t.normal, (7, 7));
    assert_eq!(mesh.vertices().len(), 4);
    assert_eq!(mesh.triangles().len(), 2);
}

#[test]
fn mesh_with_bad_index_is_refused() {
    let result = IndexedMesh3D::new(vec![(0, 0)], vec![tri([0, 0, 1])]);
    assert!(matches!(
        result,
        Err(MeshError::IndexOutOfBounds { triangle: 0, corner: 2, index: 1 })
    ));
    let result = IndexedMesh3D::new(Vec::new(), vec![tri([0, 0, 0])]);
    assert!(matches!(result, Err(MeshError::NoVertices)));
}
