//! The dictionary as a mathematical value, and what loading and lookup
//! mean on it.

use vstd::prelude::*;

use crate::dawg::error::DawgError;
use crate::dawg::units;
use crate::util::{spec_le_byte, spec_u32_le_at, spec_u32_to_le};

verus! {

/// The dictionary as a mathematical value: the sequence of its units and the
/// index at which every lookup starts.
pub struct Dawg {
    pub root: u32,
    pub units: Seq<u32>,
}

impl Dawg {
    /// The number of units that the header of `bytes` declares: its first
    /// four bytes, read as a little-endian integer.
    pub open spec fn declared_units(bytes: Seq<u8>) -> nat
        recommends
            bytes.len() >= 4,
    {
        spec_u32_le_at(bytes, 0) as nat
    }

    /// The length of the stream that starts with the header of `bytes`:
    /// four bytes of header and four for each unit that it declares. `None`
    /// where `bytes` is shorter than a header.
    pub open spec fn stream_len(bytes: Seq<u8>) -> Option<u64> {
        if bytes.len() >= 4 {
            Some((4 + 4 * Self::declared_units(bytes)) as u64)
        } else {
            None
        }
    }

    /// Whether `bytes` holds a header and all the units that it declares.
    pub open spec fn is_complete(bytes: Seq<u8>) -> bool {
        bytes.len() >= 4 && bytes.len() >= 4 + 4 * Self::declared_units(bytes)
    }

    /// The units that follow the header, each four bytes read as a
    /// little-endian integer, in the order of the bytes.
    pub open spec fn stream_units(bytes: Seq<u8>) -> Seq<u32>
        recommends
            Self::is_complete(bytes),
    {
        Seq::new(Self::declared_units(bytes), |i: int| spec_u32_le_at(bytes, 4 + 4 * i))
    }

    /// What loading `bytes` gives: the declared units under the root 0, or
    /// the truncation error where `bytes` ends too early. Bytes after the
    /// last declared unit are not read.
    pub open spec fn from_stream(bytes: Seq<u8>) -> Result<Dawg, DawgError> {
        if Self::is_complete(bytes) {
            Ok(Dawg { root: 0, units: Self::stream_units(bytes) })
        } else {
            Err(DawgError::TruncatedInput)
        }
    }

    /// What loading from a compressed file gives, by what its decompression
    /// gave: the dictionary in the decompressed bytes, or the decompression
    /// error where there are none.
    pub open spec fn from_file(decoded: Option<Seq<u8>>) -> Result<Dawg, DawgError> {
        match decoded {
            Some(bytes) => Self::from_stream(bytes),
            None => Err(DawgError::Decompression),
        }
    }

    /// The bytes of a stream that holds `units`: the header with their
    /// number, then each unit, all little-endian.
    pub open spec fn to_stream(units: Seq<u32>) -> Seq<u8>
        recommends
            units.len() <= u32::MAX,
    {
        spec_u32_to_le(units.len() as u32) + Seq::new(
            4 * units.len(),
            |j: int| spec_le_byte(units[j / 4], j % 4),
        )
    }

    /// Whether `index` names a unit of the array.
    pub open spec fn in_range(self, index: u32) -> bool {
        index < self.units.len()
    }

    /// The index to which the edge labelled `label` would lead from the unit
    /// `unit` at `index`.
    pub open spec fn child(index: u32, unit: u32, label: u8) -> u32 {
        (index ^ units::spec_offset(unit) ^ (label as u32)) & units::PRECISION_MASK
    }

    /// Whether a key ends at `index`.
    pub open spec fn has_value(self, index: u32) -> Result<bool, DawgError> {
        if self.in_range(index) {
            Ok(units::spec_has_leaf(self.units[index as int]))
        } else {
            Err(DawgError::IndexOutOfRange)
        }
    }

    /// The index of the unit that holds the value of the key that ends at
    /// `index`.
    pub open spec fn value_index(self, index: u32) -> u32
        recommends
            self.in_range(index),
    {
        (index ^ units::spec_offset(self.units[index as int])) & units::PRECISION_MASK
    }

    /// The value of the key that ends at `index`.
    pub open spec fn value(self, index: u32) -> Result<u32, DawgError> {
        if self.in_range(index) && self.in_range(self.value_index(index)) {
            Ok(units::spec_value(self.units[self.value_index(index) as int]))
        } else {
            Err(DawgError::IndexOutOfRange)
        }
    }

    /// One transition: from `index` along `label`. `Ok(None)` says that the
    /// node has no such edge.
    pub open spec fn follow_char(self, label: u8, index: u32) -> Result<Option<u32>, DawgError> {
        if !self.in_range(index) {
            Err(DawgError::IndexOutOfRange)
        } else {
            let next = Self::child(index, self.units[index as int], label);
            if !self.in_range(next) {
                Err(DawgError::IndexOutOfRange)
            } else if units::spec_label(self.units[next as int]) == label as u32 {
                Ok(Some(next))
            } else {
                Ok(None)
            }
        }
    }

    /// The transitions along the bytes of `key`, in order, from `index`. The
    /// walk ends at the first byte that has no edge, and at the first index
    /// out of range.
    pub open spec fn follow_bytes(self, key: Seq<u8>, index: u32) -> Result<Option<u32>, DawgError>
        decreases key.len(),
    {
        if key.len() == 0 {
            Ok(Some(index))
        } else {
            match self.follow_char(key[0], index) {
                Ok(Some(next)) => self.follow_bytes(key.drop_first(), next),
                Ok(None) => Ok(None),
                Err(e) => Err(e),
            }
        }
    }

    /// Whether `key` is a key of the dictionary: its walk from the root ends
    /// at a node at which a key ends.
    pub open spec fn contains(self, key: Seq<u8>) -> Result<bool, DawgError> {
        match self.follow_bytes(key, self.root) {
            Ok(Some(index)) => self.has_value(index),
            Ok(None) => Ok(false),
            Err(e) => Err(e),
        }
    }

    /// The value of `key`, if it is a key of the dictionary.
    pub open spec fn find(self, key: Seq<u8>) -> Result<Option<u32>, DawgError> {
        match self.follow_bytes(key, self.root) {
            Ok(Some(index)) => match self.has_value(index) {
                Ok(true) => match self.value(index) {
                    Ok(v) => Ok(Some(v)),
                    Err(e) => Err(e),
                },
                Ok(false) => Ok(None),
                Err(e) => Err(e),
            },
            Ok(None) => Ok(None),
            Err(e) => Err(e),
        }
    }

    /// Whether the node `to` is the child of the node `from` along `label`:
    /// both are in range, `to` is where the offset of `from` and the label
    /// point, and `to` bears the label.
    pub open spec fn is_edge(self, from: u32, label: u8, to: u32) -> bool {
        &&& self.in_range(from)
        &&& self.in_range(to)
        &&& to == Self::child(from, self.units[from as int], label)
        &&& units::spec_label(self.units[to as int]) == label as u32
    }

    /// Whether `path` is the sequence of nodes that spells `key` from
    /// `start`: one node more than the key has bytes, each joined to the
    /// next by the edge of the byte between them.
    pub open spec fn is_path(self, key: Seq<u8>, start: u32, path: Seq<u32>) -> bool {
        &&& path.len() == key.len() + 1
        &&& path[0] == start
        &&& forall|i: int| 0 <= i < key.len() ==> self.is_edge(#[trigger] path[i], key[i], path[i + 1])
    }

    /// Whether the dictionary stores `key`: a path spells it from the root
    /// and ends at a node at which a key ends.
    pub open spec fn stores(self, key: Seq<u8>) -> bool {
        exists|path: Seq<u32>|
            {
                &&& #[trigger] self.is_path(key, self.root, path)
                &&& self.has_value(path.last()) == Ok::<bool, DawgError>(true)
            }
    }

    /// The nodes that the walk along `key` from `start` visits, up to the
    /// node at which it ends.
    pub open spec fn visited(self, key: Seq<u8>, start: u32) -> Seq<u32>
        decreases key.len(),
    {
        if key.len() == 0 {
            seq![start]
        } else {
            match self.follow_char(key[0], start) {
                Ok(Some(next)) => seq![start] + self.visited(key.drop_first(), next),
                _ => seq![start],
            }
        }
    }
}

} // verus!
