//! Decoding of the textual parts of stored words.

pub mod decode;
