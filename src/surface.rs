//! A surface mesh: the sampled grid of an expression and its triangulation.
use vstd::prelude::*;
use vstd::arithmetic::div_mod::lemma_fundamental_div_mod;
use vstd::bytes::{spec_u32_to_le_bytes, spec_u32_from_le_bytes, lemma_auto_spec_u32_to_from_le_bytes};
use vstd::endian::{Endian, endianness};
use crate::sampler::{MeshError, SampledGrid, Evaluation, sample_grid, grid_from, error_from, only_numbers, never_fails, no_number_at};
use crate::triangulator::{GridPoint, triangulate, mesh_corners, mesh_indices, mesh_fits, point_view, corners_match, indices_match, lemma_mesh_sizes, lemma_cell_split, corner_row, corner_col};

verus! {

/// The geometry of a surface before it is normalized and packed: vertex `k`
/// stands for the grid point `corners[k]`, whose elevation is the sample
/// there divided by the anchor.
pub struct SurfaceMesh {
    pub width: u32,
    pub height: u32,
    pub grid: SampledGrid,
    pub corners: Vec<GridPoint>,
    pub indices: Vec<u32>,
}

/// The four bytes of `v` in the byte order of the machine.
pub open spec fn native_bytes(v: u32) -> Seq<u8> {
    let le = spec_u32_to_le_bytes(v);
    match endianness() {
        Endian::Little => le,
        Endian::Big => seq![le[3], le[2], le[1], le[0]],
    }
}

/// The `u32` whose bytes, in the byte order of the machine, are `s`.
pub open spec fn native_u32(s: Seq<u8>) -> u32 {
    match endianness() {
        Endian::Little => spec_u32_from_le_bytes(s),
        Endian::Big => spec_u32_from_le_bytes(seq![s[3], s[2], s[1], s[0]]),
    }
}

/// The byte image of the index sequence `s`: byte `b` of index `k` is byte
/// `4 * k + b`.
pub open spec fn index_image(s: Seq<u32>) -> Seq<u8> {
    Seq::new(4 * s.len(), |n: int| native_bytes(s[n / 4])[n % 4])
}

/// Relies on `bytemuck::cast_slice`: the bytes of the indices as they lie in
/// memory, four for each, in order.
#[verifier::external_body]
fn cast_indices(indices: &Vec<u32>) -> (r: Vec<u8>)
    ensures
        r@ == index_image(indices@),
{
    bytemuck::cast_slice::<u32, u8>(indices.as_slice()).to_vec()
}

/// Reading back the index image four bytes at a time gives the indices.
pub proof fn lemma_index_image_round_trip(s: Seq<u32>)
    ensures
        index_image(s).len() == 4 * s.len(),
        forall|k: int| 0 <= k < s.len() ==> #[trigger] native_u32(index_image(s).subrange(4 * k, 4 * k + 4)) == s[k],
{
    lemma_auto_spec_u32_to_from_le_bytes();
    assert forall|k: int| 0 <= k < s.len() implies #[trigger] native_u32(index_image(s).subrange(4 * k, 4 * k + 4)) == s[k] by {
        assert forall|b: int| 0 <= b < 4 implies (#[trigger] ((4 * k + b) / 4)) == k && (4 * k + b) % 4 == b by {
            lemma_cell_split(4 * k + b, 4, k, b);
        }
        assert((4 * k) / 4 == k && (4 * k + 1) / 4 == k && (4 * k + 2) / 4 == k && (4 * k + 3) / 4 == k);
        let le = spec_u32_to_le_bytes(s[k]);
        assert(index_image(s).subrange(4 * k, 4 * k + 4) =~= native_bytes(s[k]));
        assert(seq![le[0], le[1], le[2], le[3]] =~= le);
    }
}

impl SurfaceMesh {
    /// The grid has `(width + 1) x (height + 1)` samples, and the vertices and
    /// indices are the triangulation of the `width` x `height` cells.
    pub open spec fn wf(&self) -> bool {
        let w = self.width as int;
        let h = self.height as int;
        &&& mesh_fits(w, h)
        &&& self.grid.rows@.len() == w + 1
        &&& forall|i: int| 0 <= i <= w ==> (#[trigger] self.grid.rows@[i])@.len() == h + 1
        &&& corners_match(self.corners@, w, h)
        &&& indices_match(self.indices@, w, h)
    }

    /// The number of indices, which the renderer draws.
    pub fn element_count(&self) -> (r: u32)
        requires
            self.wf(),
        ensures
            r as int == self.indices@.len(),
            r as int == 6 * self.width * self.height,
    {
        proof {
            let w = self.width as int;
            let h = self.height as int;
            lemma_mesh_sizes(w, h);
        }
        self.indices.len() as u32
    }

    /// The index buffer's contents: the byte image of the indices.
    pub fn index_bytes(&self) -> (r: Vec<u8>)
        ensures
            r@ == index_image(self.indices@),
    {
        cast_indices(&self.indices)
    }

    /// The sample at the grid point that vertex `k` stands for.
    pub fn corner_sample(&self, k: usize) -> (r: &eval::Value)
        requires
            self.wf(),
            k < self.corners@.len(),
        ensures
            *r == self.grid.rows@[self.corners@[k as int].i as int]@[self.corners@[k as int].j as int],
    {
        proof {
            let w = self.width as int;
            let h = self.height as int;
            assert(point_view(self.corners@[k as int]) == mesh_corners(w, h)[k as int]);
            lemma_corner_in_grid(w, h, k as int);
            assert(mesh_corners(w, h)[k as int] == (corner_row(h, k as int), corner_col(h, k as int)));
        }
        let p = self.corners[k];
        &self.grid.rows[p.i as usize][p.j as usize]
    }
}

/// Vertex `k` of the mesh of a `w` x `h` grid stands for a point of the grid.
proof fn lemma_corner_in_grid(w: int, h: int, k: int)
    requires
        0 <= k < mesh_corners(w, h).len(),
        w >= 0,
        h >= 0,
    ensures
        0 <= corner_row(h, k) <= w,
        0 <= corner_col(h, k) <= h,
{
    let c = k / 4;
    assert(c < w * h);
    assert(h > 0) by (nonlinear_arith)
        requires c < w * h, c >= 0, w >= 0, h >= 0;
    lemma_fundamental_div_mod(c, h);
    let q = c / h;
    assert(0 <= q < w) by (nonlinear_arith)
        requires c == h * q + c % h, 0 <= c % h < h, c < w * h, c >= 0, h > 0;
}

/// Samples the grid `0..=width` x `0..=height` with `evaluate` and
/// triangulates the `width` x `height` cells. Fails with the error of the
/// first point, in evaluation order, where the evaluator fails or gives no
/// number; then no mesh is made. A grid whose index count does not fit in
/// `u32` is refused before any evaluation.
pub fn build_surface<F: Fn(u32, u32) -> Evaluation>(evaluate: F, width: u32, height: u32) -> (r: Result<SurfaceMesh, MeshError>)
    requires
        forall|x: u32, y: u32| evaluate.requires((x, y)),
    ensures
        !mesh_fits(width as int, height as int) ==> r matches Err(MeshError::GridTooLarge),
        mesh_fits(width as int, height as int) ==> match r {
            Ok(m) => m.width == width
                && m.height == height
                && m.wf()
                && grid_from(m.grid, evaluate, width, height)
                && forall|t: int| 0 <= t < m.indices@.len() ==> (#[trigger] m.indices@[t] as int) < m.corners@.len(),
            Err(e) => error_from(e, evaluate, width, height),
        },
        mesh_fits(width as int, height as int) && only_numbers(evaluate) ==> r is Ok,
        mesh_fits(width as int, height as int) && never_fails(evaluate)
            && (exists|i: u32, j: u32| i <= width && j <= height && #[trigger] no_number_at(evaluate, i, j))
            ==> r matches Err(MeshError::NonNumericResult { .. }),
{
    proof {
        assert(width as int * height as int <= u64::MAX) by (nonlinear_arith)
            requires 0 <= width <= u32::MAX, 0 <= height <= u32::MAX;
    }
    let cells: u64 = width as u64 * height as u64;
    if cells > u32::MAX as u64 / 6 {
        return Err(MeshError::GridTooLarge);
    }
    let grid = match sample_grid(evaluate, width, height) {
        Ok(g) => g,
        Err(e) => {
            return Err(e);
        },
    };
    let (corners, indices) = triangulate(width, height);
    Ok(SurfaceMesh { width, height, grid, corners, indices })
}

} // verus!
