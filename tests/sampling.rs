use surface_mesh::sampler::{sample_grid, Evaluation, MeshError};
use surface_mesh::surface::build_surface;
use surface_mesh::triangulator::GridPoint;

fn evaluator(expr: &'static str) -> impl Fn(u32, u32) -> Evaluation {
    move |x, y| match eval::Expr::new(expr).value("x", x).value("y", y).exec() {
        Ok(v) if v.is_number() => Ok(Some(v)),
        Ok(_) => Ok(None),
        Err(e) => Err(e),
    }
}

fn num(v: &eval::Value) -> f64 {
    v.as_f64().expect("a number")
}

#[test]
fn squares_grid_values_and_anchor() {
    let grid = sample_grid(evaluator("x*x + y*y"), 2, 2).ok().expect("sampling succeeds");
    assert_eq!(num(&grid.anchor), 8.0);
    assert_eq!(grid.rows.len(), 3);
    for i in 0..3usize {
        assert_eq!(grid.rows[i].len(), 3);
        for j in 0..3usize {
            assert_eq!(num(&grid.rows[i][j]), (i * i + j * j) as f64);
        }
    }
}

#[test]
fn squares_vertex_at_one_one() {
    let mesh = build_surface(evaluator("x*x + y*y"), 2, 2).ok().expect("mesh is built");
    let anchor = num(&mesh.grid.anchor);
    let k = mesh
        .corners
        .iter()
        .position(|p| *p == GridPoint { i: 1, j: 1 })
        .expect("a vertex at (1, 1)");
    let p = mesh.corners[k];
    let elevation = num(mesh.corner_sample(k)) / anchor;
    assert_eq!(elevation, 0.25);
    assert_eq!(p.i as f32 / mesh.width as f32, 0.5);
    assert_eq!(p.j as f32 / mesh.height as f32, 0.5);
}

#[test]
fn surface_counts() {
    let mesh = build_surface(evaluator("x + y"), 3, 2).ok().expect("mesh is built");
    assert_eq!(mesh.corners.len(), 24);
    assert_eq!(mesh.indices.len(), 36);
    assert_eq!(mesh.element_count(), 36);
}

#[test]
fn empty_surface() {
    let mesh = build_surface(evaluator("x + y"), 0, 4).ok().expect("mesh is built");
    assert!(mesh.corners.is_empty());
    assert!(mesh.indices.is_empty());
    assert_eq!(mesh.element_count(), 0);
    assert_eq!(mesh.grid.rows.len(), 1);
    assert_eq!(mesh.grid.rows[0].len(), 5);
}

#[test]
fn non_numeric_anchor_fails() {
    match build_surface(evaluator("x > y"), 2, 2) {
        Err(MeshError::NonNumericResult { x, y }) => assert_eq!((x, y), (2, 2)),
        other => panic!("unexpected: {:?}", other.map(|m| m.indices.len())),
    }
}

#[test]
fn non_numeric_grid_point_fails() {
    // x / y is a number at the corner (2, 2) and not at (0, 0), where it is 0 / 0.
    let err = build_surface(evaluator("x / y"), 2, 2).err().expect("no mesh");
    assert!(err.is_non_numeric());
    match err {
        MeshError::NonNumericResult { x, y } => assert_eq!((x, y), (0, 0)),
        MeshError::EvaluatorError(e) => panic!("unexpected: {:?}", e),
        MeshError::GridTooLarge => panic!("unexpected size error"),
    }
}

#[test]
fn evaluator_error_is_reported() {
    let err = sample_grid(evaluator("x +* ("), 2, 2).err().expect("no grid");
    assert!(!err.is_non_numeric());
    assert!(matches!(err, MeshError::EvaluatorError(_)));
}

#[test]
fn unknown_function_is_evaluator_error() {
    let err = build_surface(evaluator("nosuchfunction(x)"), 1, 1).err().expect("no mesh");
    assert!(matches!(err, MeshError::EvaluatorError(_)));
}

#[test]
fn index_bytes_are_the_native_image() {
    let mesh = build_surface(evaluator("x + y"), 2, 1).ok().expect("mesh is built");
    let bytes = mesh.index_bytes();
    assert_eq!(bytes.len(), 4 * mesh.indices.len());
    let back: Vec<u32> = bytes
        .chunks(4)
        .map(|c| u32::from_ne_bytes([c[0], c[1], c[2], c[3]]))
        .collect();
    assert_eq!(back, mesh.indices);
    assert_eq!(&bytes[4..8], &1u32.to_ne_bytes());
}

#[test]
fn evaluator_error_is_passed_on_verbatim() {
    let f = |x: u32, y: u32| -> Evaluation {
        if (x, y) == (1, 0) {
            Err(eval::Error::Custom("boom".to_string()))
        } else {
            Ok(Some(eval::to_value(x + y)))
        }
    };
    match build_surface(f, 2, 2) {
        Err(MeshError::EvaluatorError(e)) => assert_eq!(e, eval::Error::Custom("boom".to_string())),
        other => panic!("unexpected: {:?}", other.map(|m| m.indices.len())),
    }
}

#[test]
fn evaluation_order_corner_first() {
    // the corner fails as well as (0, 0): the corner is reported
    let f = |x: u32, y: u32| -> Evaluation {
        if (x, y) == (0, 0) || (x, y) == (3, 1) {
            Ok(None)
        } else {
            Ok(Some(eval::to_value(1)))
        }
    };
    match sample_grid(f, 3, 1) {
        Err(MeshError::NonNumericResult { x, y }) => assert_eq!((x, y), (3, 1)),
        other => panic!("unexpected: {:?}", other.map(|g| g.rows.len())),
    }
}

#[test]
fn oversized_grid_is_refused() {
    let f = |_: u32, _: u32| -> Evaluation { Ok(Some(eval::to_value(1))) };
    let err = build_surface(f, 100_000, 100_000).err().expect("no mesh");
    assert!(matches!(err, MeshError::GridTooLarge));
}

#[test]
fn largest_grid_index_count_is_accepted_by_size() {
    // 6 * w * h just above u32::MAX is refused; the largest square below is not refused for size
    let f = |_: u32, _: u32| -> Evaluation { Err(eval::Error::Custom("stop".to_string())) };
    assert!(matches!(build_surface(f, 26754, 26754), Err(MeshError::EvaluatorError(_))));
    assert!(matches!(build_surface(f, 26755, 26755), Err(MeshError::GridTooLarge)));
}
