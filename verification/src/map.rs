//! The bootstrap map: owns the bytes of the bootstrap file and hands out
//! bounds-checked values and slices at validated offsets.
//!
//! Every structure read of the driver goes through this module, so the
//! containment guarantee stated on each accessor is what keeps adversarial
//! bootstraps from faulting the process.

use vstd::prelude::*;

verus! {

use vstd::bytes::{spec_u16_from_le_bytes, spec_u32_from_le_bytes, spec_u64_from_le_bytes};
use vstd::bytes::{u16_from_le_bytes, u32_from_le_bytes, u64_from_le_bytes};
use vstd::slice::{slice_index_get, slice_subrange};

use crate::{RafsError, RafsResult};

/// True when `[off, off + len)` is contained in `[0, bytes.len())`.
pub open spec fn range_in(bytes: Seq<u8>, off: int, len: int) -> bool {
    0 <= off && 0 <= len && off + len <= bytes.len()
}

/// The little-endian u16 stored at `off`.
pub open spec fn le16_at(bytes: Seq<u8>, off: int) -> u16 {
    spec_u16_from_le_bytes(bytes.subrange(off, off + 2))
}

/// The little-endian u32 stored at `off`.
pub open spec fn le32_at(bytes: Seq<u8>, off: int) -> u32 {
    spec_u32_from_le_bytes(bytes.subrange(off, off + 4))
}

/// The little-endian u64 stored at `off`.
pub open spec fn le64_at(bytes: Seq<u8>, off: int) -> u64 {
    spec_u64_from_le_bytes(bytes.subrange(off, off + 8))
}

/// The read-only mapping of a bootstrap file.
///
/// The driver never stores pointers into the mapping; components record byte
/// offsets and re-read through these accessors, which fail with
/// `InvalidData` whenever the requested range is not contained in the file.
pub struct MapState {
    data: Vec<u8>,
}

impl View for MapState {
    type V = Seq<u8>;

    closed spec fn view(&self) -> Seq<u8> {
        self.data@
    }
}

impl MapState {
    /// Wrap the full contents of a bootstrap file.
    pub fn new(data: Vec<u8>) -> (s: Self)
        ensures
            s@ == data@,
    {
        MapState { data }
    }

    /// An empty mapping, used as the initial state before any load.
    pub fn empty() -> (s: Self)
        ensures
            s@ == Seq::<u8>::empty(),
    {
        MapState { data: Vec::new() }
    }

    /// Length of the mapped file in bytes.
    pub fn len(&self) -> (l: usize)
        ensures
            l == self@.len(),
    {
        self.data.len()
    }

    /// Assert that `[off, off + len)` is contained in the mapping, without
    /// producing a reference.
    pub fn validate_range(&self, off: usize, len: usize) -> (r: RafsResult<()>)
        ensures
            r is Ok <==> range_in(self@, off as int, len as int),
            r is Ok ==> off + len <= usize::MAX,
    {
        if len <= self.data.len() && off <= self.data.len() - len {
            Ok(())
        } else {
            Err(RafsError::InvalidData)
        }
    }

    /// Borrow the byte slice `[off, off + len)` of the mapping.
    pub fn get_slice(&self, off: usize, len: usize) -> (r: RafsResult<&[u8]>)
        ensures
            r is Ok <==> range_in(self@, off as int, len as int),
            r is Ok ==> off + len <= usize::MAX,
            r matches Ok(s) ==> s@ == self@.subrange(off as int, off + len),
    {
        if len <= self.data.len() && off <= self.data.len() - len {
            Ok(slice_subrange(self.data.as_slice(), off, off + len))
        } else {
            Err(RafsError::InvalidData)
        }
    }

    /// Copy the byte range `[off, off + len)` out of the mapping.
    pub fn copy_slice(&self, off: usize, len: usize) -> (r: RafsResult<Vec<u8>>)
        ensures
            r is Ok <==> range_in(self@, off as int, len as int),
            r matches Ok(v) ==> v@ == self@.subrange(off as int, off + len),
    {
        let n = self.data.len();
        if !(len <= n && off <= n - len) {
            return Err(RafsError::InvalidData);
        }
        let mut v: Vec<u8> = Vec::new();
        let mut i: usize = 0;
        while i < len
            invariant
                off + len <= self.data@.len(),
                off + len <= usize::MAX,
                i <= len,
                v@ == self.data@.subrange(off as int, off + i),
            decreases len - i,
        {
            v.push(self.data[off + i]);
            i = i + 1;
            assert(v@ =~= self.data@.subrange(off as int, off + i));
        }
        Ok(v)
    }

    /// The byte stored at `off`.
    pub fn read_u8(&self, off: usize) -> (r: RafsResult<u8>)
        ensures
            r is Ok <==> range_in(self@, off as int, 1),
            r matches Ok(v) ==> v == self@[off as int],
    {
        if off < self.data.len() {
            Ok(*slice_index_get(self.data.as_slice(), off))
        } else {
            Err(RafsError::InvalidData)
        }
    }

    /// The little-endian u16 stored at `off`.
    pub fn read_u16(&self, off: usize) -> (r: RafsResult<u16>)
        ensures
            r is Ok <==> range_in(self@, off as int, 2),
            r matches Ok(v) ==> v == le16_at(self@, off as int),
    {
        let s = self.get_slice(off, 2)?;
        Ok(u16_from_le_bytes(s))
    }

    /// The little-endian u32 stored at `off`.
    pub fn read_u32(&self, off: usize) -> (r: RafsResult<u32>)
        ensures
            r is Ok <==> range_in(self@, off as int, 4),
            r matches Ok(v) ==> v == le32_at(self@, off as int),
    {
        let s = self.get_slice(off, 4)?;
        Ok(u32_from_le_bytes(s))
    }

    /// The little-endian u64 stored at `off`.
    pub fn read_u64(&self, off: usize) -> (r: RafsResult<u64>)
        ensures
            r is Ok <==> range_in(self@, off as int, 8),
            r matches Ok(v) ==> v == le64_at(self@, off as int),
    {
        let s = self.get_slice(off, 8)?;
        Ok(u64_from_le_bytes(s))
    }
}

} // verus!
