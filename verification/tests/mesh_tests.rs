use solar_raster::mesh::sphere_indices;

#[test]
fn one_segment_sphere_is_one_quad() {
    // One quad of the 2x2 vertex grid: triangles (0,2,1) and (2,3,1).
    assert_eq!(sphere_indices(1), vec![0, 2, 1, 2, 3, 1]);
}

#[test]
fn two_segment_sphere_topology() {
    let idx = sphere_indices(2);
    assert_eq!(idx.len(), 24);
    // Row-major quad order over a 3x3 vertex grid.
    assert_eq!(&idx[0..6], &[0, 3, 1, 3, 4, 1]);
    assert_eq!(&idx[6..12], &[1, 4, 2, 4, 5, 2]);
    assert_eq!(&idx[12..18], &[3, 6, 4, 6, 7, 4]);
    assert_eq!(&idx[18..24], &[4, 7, 5, 7, 8, 5]);
}

#[test]
fn indices_address_the_vertex_grid() {
    for segments in [1u32, 2, 3, 7, 20] {
        let idx = sphere_indices(segments);
        let vertex_count = (segments + 1) * (segments + 1);
        assert_eq!(idx.len() as u32, 6 * segments * segments);
        for &i in &idx {
            assert!(i < vertex_count);
        }
    }
}
