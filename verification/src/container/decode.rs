//! Decoders that take the rest of the input along.

pub mod error;
pub mod map;
