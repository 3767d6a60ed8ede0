//! A verified kernel for a small software 3D renderer.
//!
//! The crate holds the indexed mesh store, the primitive shape builders, the
//! model text reader and the per-frame decisions (culling, lighting floor,
//! depth ordering). Numbers are carried as IEEE-754 bit patterns; every
//! comparison made on them is proved against an integer model of the order of
//! the numbers they stand for. Of the arithmetic, halving and taking the
//! opposite are done here, on the patterns; the rest is the host's work.

pub mod maths;
pub mod color;
pub mod triangle;
pub mod mesh;
pub mod render;
