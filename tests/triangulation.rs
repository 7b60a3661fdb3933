use surface_mesh::triangulator::{triangulate, GridPoint};

#[test]
fn vertex_and_index_counts() {
    for (w, h) in [(1u32, 1u32), (2, 3), (5, 4), (10, 1)] {
        let (corners, indices) = triangulate(w, h);
        assert_eq!(corners.len(), (4 * w * h) as usize);
        assert_eq!(indices.len(), (6 * w * h) as usize);
    }
}

#[test]
fn indices_below_vertex_count() {
    let (corners, indices) = triangulate(7, 3);
    assert!(indices.iter().all(|&v| (v as usize) < corners.len()));
}

#[test]
fn empty_grid_gives_empty_mesh() {
    for (w, h) in [(0u32, 0u32), (0, 5), (5, 0)] {
        let (corners, indices) = triangulate(w, h);
        assert!(corners.is_empty());
        assert!(indices.is_empty());
    }
}

#[test]
fn one_cell_mesh() {
    let (corners, indices) = triangulate(1, 1);
    assert_eq!(
        corners,
        vec![
            GridPoint { i: 0, j: 0 },
            GridPoint { i: 0, j: 1 },
            GridPoint { i: 1, j: 0 },
            GridPoint { i: 1, j: 1 },
        ]
    );
    assert_eq!(indices, vec![0, 1, 2, 3, 2, 1]);
}

#[test]
fn cell_triangles_and_winding() {
    let (w, h) = (3u32, 4u32);
    let (corners, indices) = triangulate(w, h);
    for i in 0..w {
        for j in 0..h {
            let c = (i * h + j) as usize;
            let base = 4 * c;
            assert_eq!(corners[base], GridPoint { i, j });
            assert_eq!(corners[base + 1], GridPoint { i, j: j + 1 });
            assert_eq!(corners[base + 2], GridPoint { i: i + 1, j });
            assert_eq!(corners[base + 3], GridPoint { i: i + 1, j: j + 1 });
            let b = base as u32;
            assert_eq!(&indices[6 * c..6 * c + 6], &[b, b + 1, b + 2, b + 3, b + 2, b + 1]);
        }
    }
}

#[test]
fn second_row_starts_after_first() {
    let (corners, indices) = triangulate(2, 2);
    assert_eq!(corners[8], GridPoint { i: 1, j: 0 });
    assert_eq!(&indices[12..18], &[8, 9, 10, 11, 10, 9]);
}
