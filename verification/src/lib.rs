//! Read-only lookup in a DAWG dictionary: a minimal double-array trie that
//! maps byte strings to small integers, packed into a flat array of 32-bit
//! units. Beside it, the last step of the numeric decoders that read the
//! textual parts of stored words.

pub mod container;
pub mod dawg;
pub mod util;
