//! Binary floating point, worked out on the bit patterns.

pub mod model;
pub mod nearest;
pub mod order;
pub mod parts;
pub mod bits;
pub mod arith;
pub mod single;
pub mod double;
pub mod laws;
