//! Deterministic procedural terrain synthesis.
//!
//! A permutation-table Perlin noise sampler, a fractal (fBm) accumulator
//! layered on top of it, and a heightmap mesh builder that turns the
//! accumulated noise into a triangulated grid mesh.  All arithmetic is
//! fixed-point ([`fixed::SCALE`] ticks to the unit), so every function is a
//! pure integer computation whose result is pinned down exactly by its
//! contract.

pub mod fixed;
pub mod mesh;
pub mod noise;
