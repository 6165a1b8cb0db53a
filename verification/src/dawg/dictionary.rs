//! The dictionary: an array of packed units, walked from the root one byte
//! of the key at a time.

use vstd::prelude::*;
use vstd::string::StringSliceAdditionalSpecFns;

use crate::dawg::error::DawgError;
use crate::dawg::gzip::{gunzip, spec_gunzip};
use crate::dawg::lemmas::lemma_contains_iff_stores;
use crate::dawg::model::Dawg;
use crate::dawg::units;
use crate::util::{spec_u32_le_at, u32_le_at};

verus! {

/// A dictionary for retrieval: the units as they were loaded, and the index
/// of the root.
#[derive(Debug, Clone)]
pub struct Dictionary {
    /// Root index
    pub root: u32,
    pub units: Vec<u32>,
}

impl View for Dictionary {
    type V = Dawg;

    open spec fn view(&self) -> Dawg {
        Dawg { root: self.root, units: self.units@ }
    }
}

impl Dictionary {
    /// Reads a dictionary from the contents of a file: a gzip stream that
    /// wraps the bytes that [`Dictionary::from_stream`] reads. Fails with
    /// [`DawgError::Decompression`] where the contents do not decompress,
    /// and as `from_stream` does on what they decompress to.
    pub fn from_file(contents: &[u8]) -> (r: Result<Dictionary, DawgError>)
        ensures
            match r {
                Ok(d) => Dawg::from_file(spec_gunzip(contents@)) == Ok::<Dawg, DawgError>(d@),
                Err(e) => Dawg::from_file(spec_gunzip(contents@)) == Err::<Dawg, DawgError>(e),
            },
    {
        match gunzip(contents) {
            Some(bytes) => Self::from_stream(bytes.as_slice()),
            None => Err(DawgError::Decompression),
        }
    }

    /// Tells from the header at the start of `bytes` how many bytes the
    /// whole stream takes, header included, so that a caller who reads from
    /// a source knows how much to read before it calls
    /// [`Dictionary::from_stream`]. `None` where `bytes` is shorter than a
    /// header.
    pub fn stream_len(bytes: &[u8]) -> (r: Option<u64>)
        ensures
            r == Dawg::stream_len(bytes@),
            r is Some <==> bytes@.len() >= 4,
            r matches Some(len) ==> len == 4 + 4 * Dawg::declared_units(bytes@),
    {
        if bytes.len() < 4 {
            return None;
        }
        let base_size: u32 = u32_le_at(bytes, 0);
        Some(4 + 4 * (base_size as u64))
    }

    /// Reads a dictionary from the bytes of a stream: a header of four bytes
    /// that gives the number of units, then the units, four bytes each, all
    /// little-endian. Fails where the bytes end before the header or before
    /// the last declared unit; what the units hold is not examined, and
    /// bytes after the last declared unit are not read.
    pub fn from_stream(bytes: &[u8]) -> (r: Result<Dictionary, DawgError>)
        ensures
            match r {
                Ok(d) => Dawg::from_stream(bytes@) == Ok::<Dawg, DawgError>(d@),
                Err(e) => Dawg::from_stream(bytes@) == Err::<Dawg, DawgError>(e),
            },
            r is Err <==> bytes@.len() < 4 || bytes@.len() < 4 + 4 * Dawg::declared_units(bytes@),
            r matches Err(e) ==> e == DawgError::TruncatedInput,
            r matches Ok(d) ==> {
                &&& d.root == 0
                &&& d.units@.len() == Dawg::declared_units(bytes@)
                &&& forall|i: int|
                    0 <= i < d.units@.len() ==> d.units@[i] == spec_u32_le_at(bytes@, 4 + 4 * i)
            },
    {
        let stream_size: u64 = match Self::stream_len(bytes) {
            Some(len) => len,
            None => return Err(DawgError::TruncatedInput),
        };
        if (bytes.len() as u64) < stream_size {
            return Err(DawgError::TruncatedInput);
        }
        let count: usize = (stream_size as usize - 4) / 4;
        let mut units: Vec<u32> = Vec::with_capacity(count);
        let mut i: usize = 0;
        while i < count
            invariant
                i <= count,
                4 + 4 * count <= bytes@.len() <= usize::MAX,
                units@.len() == i,
                forall|j: int| 0 <= j < i ==> units@[j] == spec_u32_le_at(bytes@, 4 + 4 * j),
            decreases count - i,
        {
            units.push(u32_le_at(bytes, 4 + 4 * i));
            i += 1;
        }
        let root: u32 = 0;
        assert(units@ == Dawg::stream_units(bytes@));
        Ok(Dictionary { root, units })
    }

    /// Checks if a given index is related to the end of a key. Fails with
    /// [`DawgError::IndexOutOfRange`] where the array has no such index.
    pub fn has_value(&self, index: u32) -> (r: Result<bool, DawgError>)
        ensures
            r == self@.has_value(index),
    {
        if (index as usize) < self.units.len() {
            Ok(units::has_leaf(self.units[index as usize]))
        } else {
            Err(DawgError::IndexOutOfRange)
        }
    }

    /// Gets a value from a given index: the value in the unit to which the
    /// offset of the unit at `index` points. Fails with
    /// [`DawgError::IndexOutOfRange`] where either unit is outside the array.
    pub fn value(&self, index: u32) -> (r: Result<u32, DawgError>)
        ensures
            r == self@.value(index),
    {
        if (index as usize) >= self.units.len() {
            return Err(DawgError::IndexOutOfRange);
        }
        let offset = units::offset(self.units[index as usize]);
        let value_index = (index ^ offset) & units::PRECISION_MASK;
        if (value_index as usize) >= self.units.len() {
            return Err(DawgError::IndexOutOfRange);
        }
        Ok(units::value(self.units[value_index as usize]))
    }

    /// Follows a transition: gives the child of `index` along `label`, or
    /// `None` where the unit in the child's place bears another label. Fails
    /// with [`DawgError::IndexOutOfRange`] where `index` or the child's place
    /// is outside the array.
    pub fn follow_char(&self, label: u8, index: u32) -> (r: Result<Option<u32>, DawgError>)
        ensures
            r == self@.follow_char(label, index),
    {
        if (index as usize) >= self.units.len() {
            return Err(DawgError::IndexOutOfRange);
        }
        let offset = units::offset(self.units[index as usize]);
        let next_index = (index ^ offset ^ (label as u32)) & units::PRECISION_MASK;
        if (next_index as usize) >= self.units.len() {
            return Err(DawgError::IndexOutOfRange);
        }
        if units::label(self.units[next_index as usize]) == label as u32 {
            return Ok(Some(next_index));
        }
        Ok(None)
    }

    /// Follows transitions: one for each byte of `s`, from `index` on. Gives
    /// the node that the last byte leads to (`index` itself for the empty
    /// string), `None` at the first byte without an edge, and the error of
    /// the first transition that fails.
    pub fn follow_bytes(&self, s: &str, index: u32) -> (r: Result<Option<u32>, DawgError>)
        ensures
            r == self@.follow_bytes(s.spec_bytes(), index),
    {
        let key = s.as_bytes();
        let mut node = index;
        let mut i: usize = 0;
        assert(key@.skip(0) == key@);
        while i < key.len()
            invariant
                i <= key@.len(),
                key@ == s.spec_bytes(),
                self@.follow_bytes(key@, index) == self@.follow_bytes(key@.skip(i as int), node),
            decreases key@.len() - i,
        {
            assert(key@.skip(i as int).drop_first() == key@.skip(i + 1));
            node = match self.follow_char(key[i], node) {
                Ok(Some(v)) => v,
                Ok(None) => return Ok(None),
                Err(e) => return Err(e),
            };
            i += 1;
        }
        Ok(Some(node))
    }

    /// Exact matching: whether the bytes of `key` lead from the root to a
    /// node at which a key ends. A key that is not stored gives `false`,
    /// unless the lookup is led outside the array, which is an error.
    pub fn contains(&self, key: &str) -> (r: Result<bool, DawgError>)
        ensures
            r == self@.contains(key.spec_bytes()),
            r == Ok::<bool, DawgError>(true) <==> self@.stores(key.spec_bytes()),
    {
        proof {
            lemma_contains_iff_stores(self@, key.spec_bytes());
        }
        let index = self.follow_bytes(key, self.root);
        match index {
            Ok(Some(index)) => self.has_value(index),
            Ok(None) => Ok(false),
            Err(e) => Err(e),
        }
    }

    /// Exact matching (returns value): the value of `key`, or `None` where
    /// `key` has no path from the root or its path ends at a node at which
    /// no key ends.
    pub fn find(&self, key: &str) -> (r: Result<Option<u32>, DawgError>)
        ensures
            r == self@.find(key.spec_bytes()),
            r matches Ok(Some(_)) ==> self@.stores(key.spec_bytes()),
            r matches Ok(None) ==> !self@.stores(key.spec_bytes()),
    {
        proof {
            lemma_contains_iff_stores(self@, key.spec_bytes());
        }
        let index = self.follow_bytes(key, self.root);
        match index {
            Ok(Some(index)) => match self.has_value(index) {
                Ok(true) => match self.value(index) {
                    Ok(v) => Ok(Some(v)),
                    Err(e) => Err(e),
                },
                Ok(false) => Ok(None),
                Err(e) => Err(e),
            },
            Ok(None) => Ok(None),
            Err(e) => Err(e),
        }
    }
}

} // verus!
