//! Triangulation of a `width` x `height` grid of cells into an indexed mesh.
//!
//! Every cell `(i, j)` with `i < width` and `j < height` emits its own four
//! corner vertices, `(i, j)`, `(i, j + 1)`, `(i + 1, j)`, `(i + 1, j + 1)`,
//! followed by six indices forming the triangles `(0, 1, 2)` and `(3, 2, 1)`
//! relative to the cell's first vertex. Cells are emitted row by row, so the
//! cell `(i, j)` is the `i * height + j`-th one. No vertex is shared between
//! cells.
use vstd::prelude::*;
use vstd::arithmetic::div_mod::lemma_fundamental_div_mod_converse;

verus! {

/// A grid coordinate: row `i` (the x channel) and column `j` (the z channel).
#[derive(Clone, Copy, Debug, PartialEq, Eq, Structural)]
pub struct GridPoint {
    pub i: u32,
    pub j: u32,
}

/// Offset, from the cell's first vertex, of the `r`-th of its six indices.
pub open spec fn index_offset(r: int) -> int {
    if r == 0 {
        0
    } else if r == 1 {
        1
    } else if r == 2 {
        2
    } else if r == 3 {
        3
    } else if r == 4 {
        2
    } else {
        1
    }
}

/// Number of cells of a `w` x `h` grid.
pub open spec fn cell_count(w: int, h: int) -> int {
    w * h
}

/// Row of the corner that vertex `k` stands for, in a grid of height `h`.
pub open spec fn corner_row(h: int, k: int) -> int {
    (k / 4) / h + (k % 4) / 2
}

/// Column of the corner that vertex `k` stands for, in a grid of height `h`.
pub open spec fn corner_col(h: int, k: int) -> int {
    (k / 4) % h + (k % 4) % 2
}

/// Value of index `t` of the mesh.
pub open spec fn index_value(t: int) -> int {
    4 * (t / 6) + index_offset(t % 6)
}

/// The vertices of the mesh of a `w` x `h` grid, as grid coordinates.
pub open spec fn mesh_corners(w: int, h: int) -> Seq<(int, int)> {
    Seq::new((4 * cell_count(w, h)) as nat, |k: int| (corner_row(h, k), corner_col(h, k)))
}

/// The indices of the mesh of a `w` x `h` grid.
pub open spec fn mesh_indices(w: int, h: int) -> Seq<int> {
    Seq::new((6 * cell_count(w, h)) as nat, |t: int| index_value(t))
}

/// The view of an emitted vertex as a grid coordinate.
pub open spec fn point_view(p: GridPoint) -> (int, int) {
    (p.i as int, p.j as int)
}

/// Whether `s` holds the vertices of the mesh of a `w` x `h` grid.
pub open spec fn corners_match(s: Seq<GridPoint>, w: int, h: int) -> bool {
    &&& s.len() == mesh_corners(w, h).len()
    &&& forall|k: int| 0 <= k < s.len() ==> #[trigger] point_view(s[k]) == mesh_corners(w, h)[k]
}

/// Whether `s` holds the indices of the mesh of a `w` x `h` grid.
pub open spec fn indices_match(s: Seq<u32>, w: int, h: int) -> bool {
    &&& s.len() == mesh_indices(w, h).len()
    &&& forall|t: int| 0 <= t < s.len() ==> #[trigger] s[t] as int == mesh_indices(w, h)[t]
}

/// Whether the indices of the mesh of a `w` x `h` grid, and their count, fit
/// in `u32`.
pub open spec fn mesh_fits(w: int, h: int) -> bool {
    6 * cell_count(w, h) <= u32::MAX
}

/// `c` is `q * d + r` with `0 <= r < d`: its quotient by `d` is `q` and its
/// remainder `r`.
pub proof fn lemma_cell_split(c: int, d: int, q: int, r: int)
    requires
        d > 0,
        0 <= r < d,
        c == q * d + r,
    ensures
        c / d == q,
        c % d == r,
{
    lemma_fundamental_div_mod_converse(c, d, q, r);
}

/// Cell `c = i * h + j` of a `w` x `h` grid lies in the grid, stands for
/// `(i, j)`, and its vertices `4 * c + r` and indices `6 * c + r` belong to it.
proof fn lemma_cell_layout(w: int, h: int, i: int, j: int, c: int)
    requires
        0 <= i < w,
        0 <= j < h,
        c == i * h + j,
    ensures
        c + 1 <= w * h,
        c / h == i,
        c % h == j,
        forall|r: int| 0 <= r < 4 ==> (#[trigger] ((4 * c + r) / 4)) == c && (4 * c + r) % 4 == r,
        forall|r: int| 0 <= r < 6 ==> (#[trigger] ((6 * c + r) / 6)) == c && (6 * c + r) % 6 == r,
{
    assert(c + 1 <= w * h) by (nonlinear_arith)
        requires c == i * h + j, j < h, i < w, i >= 0, j >= 0;
    lemma_cell_split(c, h, i, j);
    assert forall|r: int| 0 <= r < 4 implies (#[trigger] ((4 * c + r) / 4)) == c && (4 * c + r) % 4 == r by {
        lemma_cell_split(4 * c + r, 4, c, r);
    }
    assert forall|r: int| 0 <= r < 6 implies (#[trigger] ((6 * c + r) / 6)) == c && (6 * c + r) % 6 == r by {
        lemma_cell_split(6 * c + r, 6, c, r);
    }
}

/// Triangulates a `width` x `height` grid: the corner coordinates of every
/// vertex, in emission order, and the index list.
pub fn triangulate(width: u32, height: u32) -> (r: (Vec<GridPoint>, Vec<u32>))
    requires
        mesh_fits(width as int, height as int),
    ensures
        corners_match(r.0@, width as int, height as int),
        indices_match(r.1@, width as int, height as int),
        forall|t: int| 0 <= t < r.1@.len() ==> (#[trigger] r.1@[t] as int) < r.0@.len(),
{
    let ghost w = width as int;
    let ghost h = height as int;
    let mut corners: Vec<GridPoint> = Vec::new();
    let mut indices: Vec<u32> = Vec::new();
    let mut i: u32 = 0;
    while i < width
        invariant
            0 <= i <= width,
            w == width as int,
            h == height as int,
            mesh_fits(w, h),
            corners@.len() == 4 * (i * h),
            indices@.len() == 6 * (i * h),
            forall|k: int| 0 <= k < corners@.len() ==> #[trigger] point_view(corners@[k]) == (corner_row(h, k), corner_col(h, k)),
            forall|t: int| 0 <= t < indices@.len() ==> #[trigger] indices@[t] as int == index_value(t),
        decreases width - i,
    {
        let mut j: u32 = 0;
        while j < height
            invariant
                0 <= i < width,
                0 <= j <= height,
                w == width as int,
                h == height as int,
                mesh_fits(w, h),
                corners@.len() == 4 * (i * h + j),
                indices@.len() == 6 * (i * h + j),
                forall|k: int| 0 <= k < corners@.len() ==> #[trigger] point_view(corners@[k]) == (corner_row(h, k), corner_col(h, k)),
                forall|t: int| 0 <= t < indices@.len() ==> #[trigger] indices@[t] as int == index_value(t),
            decreases height - j,
        {
            let ghost c = i * h + j;
            proof {
                lemma_cell_layout(w, h, i as int, j as int, c);
            }
            let base = corners.len() as u32;
            corners.push(GridPoint { i, j });
            corners.push(GridPoint { i, j: j + 1 });
            corners.push(GridPoint { i: i + 1, j });
            corners.push(GridPoint { i: i + 1, j: j + 1 });
            indices.push(base);
            indices.push(base + 1);
            indices.push(base + 2);
            indices.push(base + 3);
            indices.push(base + 2);
            indices.push(base + 1);
            proof {
                assert forall|k: int| 0 <= k < corners@.len() implies #[trigger] point_view(corners@[k]) == (corner_row(h, k), corner_col(h, k)) by {
                    if k >= 4 * c {
                        assert((4 * c + (k - 4 * c)) / 4 == c);
                    }
                }
                assert forall|t: int| 0 <= t < indices@.len() implies #[trigger] indices@[t] as int == index_value(t) by {
                    if t >= 6 * c {
                        assert((6 * c + (t - 6 * c)) / 6 == c);
                    }
                }
                assert(i * h + j + 1 == i * h + (j + 1));
            }
            j = j + 1;
        }
        proof {
            assert(i * h + h == (i + 1) * h) by (nonlinear_arith);
        }
        i = i + 1;
    }
    proof {
        lemma_indices_in_range(w, h);
        assert forall|t: int| 0 <= t < indices@.len() implies (#[trigger] indices@[t] as int) < corners@.len() by {
            assert(mesh_indices(w, h)[t] < mesh_corners(w, h).len());
        }
    }
    (corners, indices)
}

/// A `w` x `h` grid gives exactly `4 * w * h` vertices and `6 * w * h`
/// indices.
pub proof fn lemma_mesh_sizes(w: int, h: int)
    requires
        w >= 0,
        h >= 0,
    ensures
        mesh_corners(w, h).len() == 4 * w * h,
        mesh_indices(w, h).len() == 6 * w * h,
{
    assert(w * h >= 0) by (nonlinear_arith)
        requires w >= 0, h >= 0;
    assert(4 * (w * h) == 4 * w * h) by (nonlinear_arith);
    assert(6 * (w * h) == 6 * w * h) by (nonlinear_arith);
}

/// Every index refers to a vertex of the mesh: it is below the vertex count.
pub proof fn lemma_indices_in_range(w: int, h: int)
    requires
        w >= 0,
        h >= 0,
    ensures
        forall|t: int| 0 <= t < mesh_indices(w, h).len() ==> 0 <= #[trigger] mesh_indices(w, h)[t] < mesh_corners(w, h).len(),
{
    assert(w * h >= 0) by (nonlinear_arith)
        requires w >= 0, h >= 0;
    assert forall|t: int| 0 <= t < mesh_indices(w, h).len() implies 0 <= #[trigger] mesh_indices(w, h)[t] < mesh_corners(w, h).len() by {
        let c = t / 6;
        let r = t % 6;
        lemma_fundamental_div_mod_converse(t, 6, c, r);
        assert(c < w * h);
    }
}

/// A grid without cells, `w == 0` or `h == 0`, gives no vertex and no index.
pub proof fn lemma_empty_grid(w: int, h: int)
    requires
        w >= 0,
        h >= 0,
        w == 0 || h == 0,
    ensures
        mesh_corners(w, h).len() == 0,
        mesh_indices(w, h).len() == 0,
{
    assert(w * h == 0) by (nonlinear_arith)
        requires w == 0 || h == 0;
}

/// The cell `(i, j)` owns the four vertices from `4 * (i * h + j)` on, which
/// stand for its corners `(i, j)`, `(i, j + 1)`, `(i + 1, j)`, `(i + 1, j + 1)`
/// in that order, and its six indices are `base, base + 1, base + 2` and
/// `base + 3, base + 2, base + 1` for that first vertex `base`.
pub proof fn lemma_cell_triangles(w: int, h: int, i: int, j: int)
    requires
        0 <= i < w,
        0 <= j < h,
    ensures
        ({
            let c = i * h + j;
            let base = 4 * c;
            let corners = mesh_corners(w, h);
            let indices = mesh_indices(w, h);
            &&& 6 * c + 6 <= indices.len()
            &&& base + 4 <= corners.len()
            &&& corners[base] == (i, j)
            &&& corners[base + 1] == (i, j + 1)
            &&& corners[base + 2] == (i + 1, j)
            &&& corners[base + 3] == (i + 1, j + 1)
            &&& indices.subrange(6 * c, 6 * c + 6) == seq![base, base + 1, base + 2, base + 3, base + 2, base + 1]
        }),
{
    let c = i * h + j;
    lemma_cell_layout(w, h, i, j, c);
    assert((4 * c + 1) / 4 == c && (4 * c + 2) / 4 == c && (4 * c + 3) / 4 == c);
    assert((4 * c) / 4 == c);
    let base = 4 * c;
    let indices = mesh_indices(w, h);
    assert((6 * c) / 6 == c && (6 * c + 1) / 6 == c && (6 * c + 2) / 6 == c);
    assert((6 * c + 3) / 6 == c && (6 * c + 4) / 6 == c && (6 * c + 5) / 6 == c);
    assert(indices.subrange(6 * c, 6 * c + 6) =~= seq![base, base + 1, base + 2, base + 3, base + 2, base + 1]);
}

} // verus!
