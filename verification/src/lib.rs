//! Verified pixel-traversal core of a Monte Carlo ray tracer.
//!
//! A render visits every pixel of a `width x height` image exactly once.
//! This crate proves that the traversal orders used by the renderer do so:
//! the plain row-major walk ([`simple_grid_iterator::SimpleGridIterator`]),
//! the interleaved walk that shows a coarse image early
//! ([`grid_iterator::grid_iterator`]), and the mapping from a flat pixel
//! index to image-plane coordinates ([`pixel::pixel_coords`]).
//!
//! The light transport itself (vectors, intersections, scattering) is
//! floating-point arithmetic, which the verifier does not accept; it lives
//! in the unverified front end that drives this library.

pub mod grid_iterator;
pub mod pixel;
pub mod simple_grid_iterator;
