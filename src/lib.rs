//! Surface meshes for a scalar function of two variables sampled over an
//! integer grid: sampling through an expression evaluator, and the
//! triangulation of the grid into an indexed mesh of quads.
pub mod triangulator;
pub mod sampler;
pub mod surface;
