//! Sampling of a scalar expression over the integer grid
//! `0 <= i <= width`, `0 <= j <= height`.
//!
//! The normalization anchor is the value at the far corner `(width, height)`,
//! evaluated first; then the grid is evaluated row by row. The first
//! evaluation that fails, or that yields something other than a number,
//! aborts the sampling: no partial grid is returned.
//!
//! The evaluator is handed in as a function of the two coordinates: it
//! returns `Ok(Some(v))` for a numeric value `v`, `Ok(None)` for a value that
//! is not a number, and `Err(e)` where the evaluator itself fails.
use vstd::prelude::*;

verus! {

#[verifier::external_type_specification]
#[verifier::external_body]
pub struct ExValue(eval::Value);

#[verifier::external_type_specification]
#[verifier::external_body]
pub struct ExEvalError(eval::Error);

/// What an evaluation at one grid point returns.
pub type Evaluation = Result<Option<eval::Value>, eval::Error>;

/// Why sampling, and so mesh construction, failed.
#[derive(Debug)]
pub enum MeshError {
    /// The evaluator reported this error.
    EvaluatorError(eval::Error),
    /// The evaluator yielded a value that is not a number at the grid point
    /// `(x, y)`.
    NonNumericResult { x: u32, y: u32 },
    /// The grid has so many cells that the count of indices, six per cell,
    /// does not fit in `u32`.
    GridTooLarge,
}

impl MeshError {
    /// Whether this is the error of a non-numeric result.
    pub fn is_non_numeric(&self) -> (r: bool)
        ensures
            r == (self is NonNumericResult),
    {
        match self {
            MeshError::NonNumericResult { .. } => true,
            MeshError::EvaluatorError(_) => false,
            MeshError::GridTooLarge => false,
        }
    }
}

/// The sampled values of a grid: `rows[i][j]` is the value at `(i, j)`.
pub struct SampledGrid {
    /// The value at the far corner `(width, height)`, the divisor of the
    /// elevations.
    pub anchor: eval::Value,
    /// One row for each `i` in `0..=width`, of one value for each `j` in
    /// `0..=height`.
    pub rows: Vec<Vec<eval::Value>>,
}

/// Whether `f` may return a number at `(x, y)`.
pub open spec fn gives_number<F: Fn(u32, u32) -> Evaluation>(f: F, x: u32, y: u32) -> bool {
    exists|v: eval::Value| f.ensures((x, y), Ok(Some(v)))
}

/// Whether every value that `f` returns is a number.
pub open spec fn only_numbers<F: Fn(u32, u32) -> Evaluation>(f: F) -> bool {
    forall|x: u32, y: u32, v: Evaluation| f.ensures((x, y), v) ==> v matches Ok(Some(_))
}

/// Whether `f` never reports an error.
pub open spec fn never_fails<F: Fn(u32, u32) -> Evaluation>(f: F) -> bool {
    forall|x: u32, y: u32, v: Evaluation| f.ensures((x, y), v) ==> v is Ok
}

/// Whether `f` succeeds at `(x, y)` with a value that is not a number.
pub open spec fn no_number_at<F: Fn(u32, u32) -> Evaluation>(f: F, x: u32, y: u32) -> bool {
    forall|v: Evaluation| f.ensures((x, y), v) ==> v matches Ok(None)
}

/// Whether `(a, b)` comes before `(x, y)` in row-major order.
pub open spec fn precedes(a: u32, b: u32, x: u32, y: u32) -> bool {
    a < x || (a == x && b < y)
}

/// Whether sampling a `w` x `h` grid with `f`, having got a number at every
/// point evaluated before `(x, y)`, evaluates `(x, y)` next: `(x, y)` is the
/// far corner, evaluated first, or a grid point all of whose predecessors in
/// row-major order gave numbers, after the corner did.
pub open spec fn reaches<F: Fn(u32, u32) -> Evaluation>(f: F, w: u32, h: u32, x: u32, y: u32) -> bool {
    ||| x == w && y == h
    ||| {
        &&& gives_number(f, w, h)
        &&& x <= w
        &&& y <= h
        &&& forall|a: u32, b: u32| a <= w && b <= h && precedes(a, b, x, y) ==> #[trigger] gives_number(f, a, b)
    }
}

/// Whether `g` holds values that `f` returned over the `w` x `h` grid.
pub open spec fn grid_from<F: Fn(u32, u32) -> Evaluation>(g: SampledGrid, f: F, w: u32, h: u32) -> bool {
    &&& f.ensures((w, h), Ok(Some(g.anchor)))
    &&& g.rows@.len() == w + 1
    &&& forall|i: int| 0 <= i <= w ==> (#[trigger] g.rows@[i])@.len() == h + 1
    &&& forall|i: u32, j: u32| i <= w && j <= h ==> f.ensures((i, j), Ok(Some(#[trigger] g.rows@[i as int]@[j as int])))
}

/// Whether `e` is the error that sampling stops with when `f` does not give
/// a number at the point that it reaches.
pub open spec fn error_from<F: Fn(u32, u32) -> Evaluation>(e: MeshError, f: F, w: u32, h: u32) -> bool {
    match e {
        MeshError::EvaluatorError(err) => exists|x: u32, y: u32| reaches(f, w, h, x, y) && f.ensures((x, y), Err(err)),
        MeshError::NonNumericResult { x, y } => reaches(f, w, h, x, y) && f.ensures((x, y), Ok(None)),
        MeshError::GridTooLarge => false,
    }
}

/// Samples the grid `0..=width` x `0..=height` with `evaluate`, the far corner
/// first. The evaluator's error is returned as it is.
pub fn sample_grid<F: Fn(u32, u32) -> Evaluation>(evaluate: F, width: u32, height: u32) -> (r: Result<SampledGrid, MeshError>)
    requires
        forall|x: u32, y: u32| evaluate.requires((x, y)),
    ensures
        match r {
            Ok(g) => grid_from(g, evaluate, width, height),
            Err(e) => error_from(e, evaluate, width, height),
        },
        // an evaluator that only ever gives numbers leads to a grid
        only_numbers(evaluate) ==> r is Ok,
        // an evaluator that never fails, and gives no number at some grid
        // point, leads to the error of a non-numeric result
        never_fails(evaluate)
            && (exists|i: u32, j: u32| i <= width && j <= height && #[trigger] no_number_at(evaluate, i, j))
            ==> r matches Err(MeshError::NonNumericResult { .. }),
{
    let anchor = match evaluate(width, height) {
        Ok(Some(v)) => v,
        Ok(None) => {
            return Err(MeshError::NonNumericResult { x: width, y: height });
        },
        Err(err) => {
            assert(reaches(evaluate, width, height, width, height));
            return Err(MeshError::EvaluatorError(err));
        },
    };
    let mut rows: Vec<Vec<eval::Value>> = Vec::new();
    let mut i: u64 = 0;
    while i <= width as u64
        invariant
            forall|x: u32, y: u32| evaluate.requires((x, y)),
            0 <= i <= width as u64 + 1,
            evaluate.ensures((width, height), Ok(Some(anchor))),
            rows@.len() == i,
            forall|a: int| 0 <= a < i ==> (#[trigger] rows@[a])@.len() == height + 1,
            forall|a: u32, b: u32| a < i && b <= height ==> evaluate.ensures((a, b), Ok(Some(#[trigger] rows@[a as int]@[b as int]))),
        decreases width as u64 + 1 - i,
    {
        let mut row: Vec<eval::Value> = Vec::new();
        let mut j: u64 = 0;
        while j <= height as u64
            invariant
                forall|x: u32, y: u32| evaluate.requires((x, y)),
                0 <= i <= width as u64,
                0 <= j <= height as u64 + 1,
                evaluate.ensures((width, height), Ok(Some(anchor))),
                rows@.len() == i,
                forall|a: int| 0 <= a < i ==> (#[trigger] rows@[a])@.len() == height + 1,
                forall|a: u32, b: u32| a < i && b <= height ==> evaluate.ensures((a, b), Ok(Some(#[trigger] rows@[a as int]@[b as int]))),
                row@.len() == j,
                forall|b: u32| b < j ==> evaluate.ensures((i as u32, b), Ok(Some(#[trigger] row@[b as int]))),
            decreases height as u64 + 1 - j,
        {
            let x = i as u32;
            let y = j as u32;
            let outcome = evaluate(x, y);
            if !(outcome matches Ok(Some(_))) {
                proof {
                    assert(gives_number(evaluate, width, height));
                    assert forall|a: u32, b: u32| a <= width && b <= height && precedes(a, b, x, y) implies #[trigger] gives_number(evaluate, a, b) by {
                        if a < x {
                            assert(evaluate.ensures((a, b), Ok(Some(rows@[a as int]@[b as int]))));
                        } else {
                            assert(evaluate.ensures((a, b), Ok(Some(row@[b as int]))));
                        }
                    }
                    assert(reaches(evaluate, width, height, x, y));
                }
            }
            match outcome {
                Ok(Some(v)) => {
                    row.push(v);
                },
                Ok(None) => {
                    return Err(MeshError::NonNumericResult { x, y });
                },
                Err(err) => {
                    return Err(MeshError::EvaluatorError(err));
                },
            }
            j = j + 1;
        }
        rows.push(row);
        i = i + 1;
    }
    proof {
        if exists|a: u32, b: u32| a <= width && b <= height && #[trigger] no_number_at(evaluate, a, b) {
            let (a, b) = choose|a: u32, b: u32| a <= width && b <= height && #[trigger] no_number_at(evaluate, a, b);
            let v: Evaluation = Ok(Some(rows@[a as int]@[b as int]));
            assert(a < i && b <= height);
            assert(evaluate.ensures((a, b), v));
            assert(v matches Ok(None));
        }
    }
    Ok(SampledGrid { anchor, rows })
}

} // verus!
