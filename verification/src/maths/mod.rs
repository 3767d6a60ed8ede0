//! Scalars and vectors, held as bit patterns.

pub mod scalar;
pub mod vec;
