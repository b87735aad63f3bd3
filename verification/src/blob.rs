//! The blob table: descriptors of the content-addressed blobs an image
//! references, parsed out of the bootstrap at load time into owned values,
//! and the I/O descriptor types that chunk resolution emits.

use vstd::prelude::*;

verus! {

use vstd::slice::slice_to_vec;

use crate::map::{range_in, le32_at, le64_at, MapState};
use crate::names::{cstr_len, cstr_of, lemma_cstr_len};
use crate::{RafsError, RafsResult};

/// Size of one on-disk blob-table record.
///
/// The field list of a blob descriptor is fixed by the format's contract
/// (id string, sizes, chunk geometry, feature flags), but its byte layout is
/// not part of the bit-exact on-disk surface; the 128-byte record with a
/// NUL-padded 64-byte id used here is this crate's convention.
pub const BLOB_ENTRY_SIZE: usize = 128;

/// Length of the fixed, NUL-padded blob-id field of a record.
pub const BLOB_ID_FIELD_SIZE: usize = 64;

/// Mathematical view of one blob descriptor.
pub ghost struct BlobInfoView {
    /// The blob's identifier string, as bytes.
    pub blob_id: Seq<u8>,
    /// Index of the blob in the table.
    pub blob_index: u32,
    /// Chunk size the blob was built with.
    pub chunk_size: u32,
    /// Number of chunks in the blob.
    pub chunk_count: u32,
    /// Feature flag bits of the blob.
    pub features: u32,
    /// Size of the blob's compressed data.
    pub compressed_size: u64,
    /// Size of the blob's uncompressed data.
    pub uncompressed_size: u64,
}

/// One blob descriptor: the identity and geometry of a content-addressed
/// blob that chunk I/O will be directed at.
pub struct BlobInfo {
    /// The blob's identifier string, as bytes.
    pub blob_id: Vec<u8>,
    /// Index of the blob in the table.
    pub blob_index: u32,
    /// Chunk size the blob was built with.
    pub chunk_size: u32,
    /// Number of chunks in the blob.
    pub chunk_count: u32,
    /// Feature flag bits of the blob.
    pub features: u32,
    /// Size of the blob's compressed data.
    pub compressed_size: u64,
    /// Size of the blob's uncompressed data.
    pub uncompressed_size: u64,
}

impl View for BlobInfo {
    type V = BlobInfoView;

    open spec fn view(&self) -> BlobInfoView {
        BlobInfoView {
            blob_id: self.blob_id@,
            blob_index: self.blob_index,
            chunk_size: self.chunk_size,
            chunk_count: self.chunk_count,
            features: self.features,
            compressed_size: self.compressed_size,
            uncompressed_size: self.uncompressed_size,
        }
    }
}

impl BlobInfo {
    /// An owned copy of this descriptor.
    pub fn duplicate(&self) -> (r: BlobInfo)
        ensures
            r@ == self@,
    {
        BlobInfo {
            blob_id: slice_to_vec(self.blob_id.as_slice()),
            blob_index: self.blob_index,
            chunk_size: self.chunk_size,
            chunk_count: self.chunk_count,
            features: self.features,
            compressed_size: self.compressed_size,
            uncompressed_size: self.uncompressed_size,
        }
    }
}

/// The blob descriptor stored at `off` in the mapping.
pub open spec fn blob_entry_at(b: Seq<u8>, off: int) -> BlobInfoView {
    BlobInfoView {
        blob_id: cstr_of(b.subrange(off, off + 64)),
        blob_index: le32_at(b, off + 64),
        chunk_size: le32_at(b, off + 68),
        chunk_count: le32_at(b, off + 72),
        features: le32_at(b, off + 76),
        compressed_size: le64_at(b, off + 80),
        uncompressed_size: le64_at(b, off + 88),
    }
}

/// The `n` blob descriptors stored back to back at `off`.
pub open spec fn blob_table_at(b: Seq<u8>, off: int, n: int) -> Seq<BlobInfoView> {
    Seq::new(n as nat, |i: int| blob_entry_at(b, off + i * (BLOB_ENTRY_SIZE as int)))
}

/// Read the blob descriptor record at `off`.
fn read_blob_entry(map: &MapState, off: usize) -> (r: RafsResult<BlobInfo>)
    ensures
        r is Ok <==> range_in(map@, off as int, BLOB_ENTRY_SIZE as int),
        r matches Ok(b) ==> b@ == blob_entry_at(map@, off as int),
{
    map.validate_range(off, BLOB_ENTRY_SIZE)?;
    let id_field = map.get_slice(off, BLOB_ID_FIELD_SIZE)?;
    let blob_id = crate::names::copy_cstr(id_field);
    Ok(BlobInfo {
        blob_id,
        blob_index: map.read_u32(off + 64)?,
        chunk_size: map.read_u32(off + 68)?,
        chunk_count: map.read_u32(off + 72)?,
        features: map.read_u32(off + 76)?,
        compressed_size: map.read_u64(off + 80)?,
        uncompressed_size: map.read_u64(off + 88)?,
    })
}

/// The parsed list of blob descriptors referenced by an image, indexed by
/// the blob-index field embedded in chunk records.
pub struct BlobTable {
    entries: Vec<BlobInfo>,
}

impl View for BlobTable {
    type V = Seq<BlobInfoView>;

    closed spec fn view(&self) -> Seq<BlobInfoView> {
        Seq::new(self.entries@.len(), |i: int| self.entries@[i]@)
    }
}

impl BlobTable {
    /// An empty table, used as the initial state before any load.
    pub fn empty() -> (t: BlobTable)
        ensures
            t@ == Seq::<BlobInfoView>::empty(),
    {
        let t = BlobTable { entries: Vec::new() };
        proof {
            assert(t@ =~= Seq::<BlobInfoView>::empty());
        }
        t
    }

    /// Number of blobs in the table.
    pub fn len(&self) -> (n: usize)
        ensures
            n == self@.len(),
    {
        self.entries.len()
    }

    /// Parse the blob table from `[off, off + size)` of the mapping.
    ///
    /// Fails with `InvalidData` when the size is not a whole number of
    /// records or the range is not contained in the mapping.
    pub fn load(map: &MapState, off: usize, size: usize) -> (r: RafsResult<BlobTable>)
        ensures
            r is Ok ==> size % BLOB_ENTRY_SIZE as usize == 0 && range_in(
                map@,
                off as int,
                size as int,
            ),
            r matches Ok(t) ==> t@ == blob_table_at(
                map@,
                off as int,
                size as int / BLOB_ENTRY_SIZE as int,
            ),
            size % BLOB_ENTRY_SIZE as usize == 0 && range_in(map@, off as int, size as int)
                ==> r is Ok,
    {
        if size % BLOB_ENTRY_SIZE != 0 {
            return Err(RafsError::InvalidData);
        }
        map.validate_range(off, size)?;
        let count = size / BLOB_ENTRY_SIZE;
        let ghost model = blob_table_at(map@, off as int, count as int);
        let mut entries: Vec<BlobInfo> = Vec::new();
        let mut i: usize = 0;
        while i < count
            invariant
                count * BLOB_ENTRY_SIZE == size,
                off + size <= map@.len(),
                off + size <= usize::MAX,
                i <= count,
                model == blob_table_at(map@, off as int, count as int),
                entries@.len() == i,
                forall|j: int| 0 <= j < i ==> entries@[j]@ == model[j],
            decreases count - i,
        {
            proof {
                assert(i * BLOB_ENTRY_SIZE + BLOB_ENTRY_SIZE <= count * BLOB_ENTRY_SIZE) by (
                nonlinear_arith)
                    requires
                        i < count,
                        BLOB_ENTRY_SIZE == 128,
                ;
            }
            let entry_off = off + i * BLOB_ENTRY_SIZE;
            let entry = match read_blob_entry(map, entry_off) {
                Ok(e) => e,
                Err(_) => {
                    proof {
                        assert(range_in(map@, entry_off as int, BLOB_ENTRY_SIZE as int));
                    }
                    return Err(RafsError::InvalidData);
                },
            };
            entries.push(entry);
            i = i + 1;
        }
        let t = BlobTable { entries };
        proof {
            assert(t@ =~= model);
        }
        Ok(t)
    }

    /// The descriptor of the blob at `index`, or `NotFound` past the end.
    pub fn get(&self, index: usize) -> (r: RafsResult<&BlobInfo>)
        ensures
            r is Ok <==> index < self@.len(),
            r matches Ok(b) ==> b@ == self@[index as int],
    {
        if index < self.entries.len() {
            Ok(&self.entries[index])
        } else {
            Err(RafsError::NotFound)
        }
    }

    /// Owned copies of all blob descriptors, in table order.
    pub fn get_all(&self) -> (r: Vec<BlobInfo>)
        ensures
            r@.len() == self@.len(),
            forall|i: int| 0 <= i < r@.len() ==> r@[i]@ == self@[i],
    {
        let mut out: Vec<BlobInfo> = Vec::new();
        let mut i: usize = 0;
        while i < self.entries.len()
            invariant
                i <= self.entries@.len(),
                out@.len() == i,
                forall|j: int| 0 <= j < i ==> out@[j]@ == self@[j],
            decreases self.entries@.len() - i,
        {
            out.push(self.entries[i].duplicate());
            i = i + 1;
        }
        out
    }
}

/// One chunk I/O descriptor: a read of `size` bytes starting `offset` bytes
/// into the chunk identified by `(blob_index, chunk_index)`.
#[derive(Clone, Copy, Debug, PartialEq, Eq, Structural)]
pub struct BlobIoDesc {
    /// Index of the blob holding the chunk, into the blob table.
    pub blob_index: u16,
    /// Index of the chunk within that blob.
    pub chunk_index: u16,
    /// Offset of the read within the chunk's uncompressed content.
    pub offset: u32,
    /// Length of the read.
    pub size: u32,
    /// Whether the read serves a user request, as opposed to prefetch.
    pub user_io: bool,
}

/// A group of chunk I/O descriptors that all target the same blob, in the
/// order they cover the requested window.
pub struct BlobIoVec {
    /// Index of the blob all descriptors of this vector target.
    pub blob_index: u16,
    /// The descriptors, in window order.
    pub bi_vec: Vec<BlobIoDesc>,
}

} // verus!
