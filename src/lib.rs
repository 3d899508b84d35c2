//! Verified core of a ray tracer, the parts that need no floating point:
//! the pixel buffer, its PPM encoding and the order in which pixels are
//! scheduled; the ordering of intersections by distance, the choice of the
//! hit and the refractive container bookkeeping; the index work of matrix
//! minors; the recursion budget of secondary rays; and the cell rules of the
//! band and checkers patterns. Distances enter as the bit patterns of their
//! doubles.

pub mod equivalent;
pub mod canvas;
pub mod ppm;
pub mod intersection;
pub mod patterns;
pub mod world;
pub mod matrix;
