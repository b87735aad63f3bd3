//! On-disk record formats of the bootstrap: inode slots in their compact and
//! extended encodings, directory entries, inline extended-attribute records,
//! on-inode chunk addresses and sidecar chunk-info rows.
//!
//! Each record has a spec-level decoder over the mapped bytes and an
//! executable reader proved to return exactly the decoded record whenever the
//! record is contained in the mapping.

use vstd::prelude::*;

verus! {

use crate::map::{le16_at, le32_at, le64_at, range_in, MapState};
use crate::{RafsError, RafsResult};

/// Fixed block size of the on-disk format.
pub const EROFS_BLOCK_SIZE: usize = 4096;

/// Size of one inode slot; a nid addresses the slot at `meta_offset + nid * 32`.
pub const EROFS_INODE_SLOT_SIZE: usize = 32;

/// Size of one directory entry record.
pub const DIRENT_SIZE: usize = 12;

/// Size of the inline xattr body header.
pub const XATTR_HEADER_SIZE: usize = 12;

/// Size of one inline xattr entry record; also the alignment of xattr records.
pub const XATTR_ENTRY_SIZE: usize = 4;

/// Size of one on-inode chunk-address record.
pub const CHUNK_ADDR_SIZE: usize = 8;

/// Size of one sidecar chunk-info row.
pub const CHUNK_INFO_SIZE: usize = 80;

/// Data layout: plain blocks.
pub const EROFS_INODE_FLAT_PLAIN: u16 = 0;

/// Data layout: plain blocks with the last block inline after the inode.
pub const EROFS_INODE_FLAT_INLINE: u16 = 2;

/// Data layout: chunk-based regular file data.
pub const EROFS_INODE_CHUNK_BASED: u16 = 4;

/// `ceil(x / b)` for a positive divisor.
pub open spec fn spec_div_ceil(x: int, b: int) -> int
    recommends
        b > 0,
{
    x / b + if x % b == 0 {
        0int
    } else {
        1int
    }
}

/// `x` rounded up to the next multiple of `b`.
pub open spec fn spec_round_up(x: int, b: int) -> int
    recommends
        b > 0,
{
    spec_div_ceil(x, b) * b
}

/// `ceil(x / b)`: how many blocks or chunks of size `b` cover `x` bytes.
pub fn div_ceil_u64(x: u64, b: u64) -> (r: u64)
    requires
        b > 0,
    ensures
        r == spec_div_ceil(x as int, b as int),
{
    if x % b == 0 {
        x / b
    } else {
        proof {
            lemma_div_below(x as int, b as int, u64::MAX as int);
        }
        x / b + 1
    }
}

/// When `b` does not divide `x`, the quotient is strictly below any bound on
/// `x`; this is what lets `x / b + 1` be computed without overflow.
proof fn lemma_div_below(x: int, b: int, max: int)
    requires
        b > 0,
        0 <= x <= max,
        x % b != 0,
    ensures
        x / b < max,
{
    assert(x / b < max) by (nonlinear_arith)
        requires
            b > 0,
            0 <= x <= max,
            x % b != 0,
    ;
}

/// `x` rounded up to the next multiple of `b`, or `InvalidData` when the
/// result does not fit in `usize`.
pub fn round_up_usize(x: usize, b: usize) -> (r: RafsResult<usize>)
    requires
        b > 0,
    ensures
        r matches Ok(v) ==> v == spec_round_up(x as int, b as int),
        r is Ok <==> spec_round_up(x as int, b as int) <= usize::MAX,
{
    let d = x / b;
    let q = if x % b == 0 {
        d
    } else {
        proof {
            lemma_div_below(x as int, b as int, usize::MAX as int);
        }
        d + 1
    };
    assert(q == spec_div_ceil(x as int, b as int));
    match q.checked_mul(b) {
        Some(v) => Ok(v),
        None => Err(RafsError::InvalidData),
    }
}

/// A decoded inode record, identical in meaning for both encodings.
///
/// Compact records carry 16-bit nlink, uid and gid and no mtime; those fields
/// are widened (and mtime zeroed) so that both encodings share one view.
#[derive(Clone, Copy, Debug, PartialEq, Eq, Structural)]
pub struct DiskInode {
    /// Whether the record uses the 64-byte extended encoding.
    pub extended: bool,
    /// The raw format word: version bit, data-layout bits, reserved bits.
    pub format: u16,
    /// Number of inline xattr slots; 0 means no xattr body at all.
    pub xattr_count: u16,
    /// POSIX mode word.
    pub mode: u16,
    /// Link count.
    pub nlink: u32,
    /// Size of the inode's content in bytes.
    pub size: u64,
    /// Union field: block index for plain/inline layouts, device number for
    /// special files, chunk-format word for chunk-based files.
    pub union_field: u32,
    /// On-disk inode sequence number (informational).
    pub ino: u32,
    /// Owner uid.
    pub uid: u32,
    /// Owner gid.
    pub gid: u32,
    /// Modification time, seconds part.
    pub mtime: u64,
    /// Modification time, nanoseconds part.
    pub mtime_nsec: u32,
}

/// True when the format word selects the extended encoding.
pub open spec fn spec_is_extended(format: u16) -> bool {
    format & 1 == 1
}

/// The data-layout field of a format word (bits 1..=3).
pub open spec fn spec_layout(format: u16) -> u16 {
    (format >> 1) & 7
}

/// True when the reserved bits (4..) of the format word are all zero.
pub open spec fn spec_format_clean(format: u16) -> bool {
    format >> 4 == 0
}

/// Size of the inode record itself: 64 bytes extended, 32 compact.
pub open spec fn spec_inode_size(format: u16) -> int {
    if spec_is_extended(format) {
        64int
    } else {
        32int
    }
}

/// The inode record decoded from the bytes at `off`.
pub open spec fn inode_at(b: Seq<u8>, off: int) -> DiskInode {
    let format = le16_at(b, off);
    if spec_is_extended(format) {
        DiskInode {
            extended: true,
            format,
            xattr_count: le16_at(b, off + 2),
            mode: le16_at(b, off + 4),
            nlink: le32_at(b, off + 44),
            size: le64_at(b, off + 8),
            union_field: le32_at(b, off + 16),
            ino: le32_at(b, off + 20),
            uid: le32_at(b, off + 24),
            gid: le32_at(b, off + 28),
            mtime: le64_at(b, off + 32),
            mtime_nsec: le32_at(b, off + 40),
        }
    } else {
        DiskInode {
            extended: false,
            format,
            xattr_count: le16_at(b, off + 2),
            mode: le16_at(b, off + 4),
            nlink: le16_at(b, off + 6) as u32,
            size: le32_at(b, off + 8) as u64,
            union_field: le32_at(b, off + 16),
            ino: le32_at(b, off + 20),
            uid: le16_at(b, off + 24) as u32,
            gid: le16_at(b, off + 26) as u32,
            mtime: 0,
            mtime_nsec: 0,
        }
    }
}

/// True when the whole inode record at `off` is contained in the mapping.
pub open spec fn inode_record_in(b: Seq<u8>, off: int) -> bool {
    range_in(b, off, 32) && range_in(b, off, spec_inode_size(le16_at(b, off)))
}

impl DiskInode {
    /// The data-layout field of this inode's format word.
    pub fn layout(&self) -> (l: u16)
        ensures
            l == spec_layout(self.format),
    {
        (self.format >> 1) & 7
    }

    /// True when the reserved format bits are all zero.
    pub fn format_clean(&self) -> (c: bool)
        ensures
            c == spec_format_clean(self.format),
    {
        self.format >> 4 == 0
    }

    /// Size in bytes of the record itself.
    pub fn inode_size(&self) -> (s: usize)
        ensures
            s == spec_inode_size(self.format),
            spec_is_extended(self.format) == self.extended ==> s == if self.extended {
                64int
            } else {
                32int
            },
    {
        if self.format & 1 == 1 {
            64
        } else {
            32
        }
    }
}

/// Read and decode the inode record at `off`.
pub fn read_inode(map: &MapState, off: usize) -> (r: RafsResult<DiskInode>)
    ensures
        r is Ok <==> inode_record_in(map@, off as int),
        r matches Ok(i) ==> i == inode_at(map@, off as int),
{
    map.validate_range(off, 32)?;
    let format = map.read_u16(off)?;
    if format & 1 == 1 {
        map.validate_range(off, 64)?;
        Ok(DiskInode {
            extended: true,
            format,
            xattr_count: map.read_u16(off + 2)?,
            mode: map.read_u16(off + 4)?,
            nlink: map.read_u32(off + 44)?,
            size: map.read_u64(off + 8)?,
            union_field: map.read_u32(off + 16)?,
            ino: map.read_u32(off + 20)?,
            uid: map.read_u32(off + 24)?,
            gid: map.read_u32(off + 28)?,
            mtime: map.read_u64(off + 32)?,
            mtime_nsec: map.read_u32(off + 40)?,
        })
    } else {
        Ok(DiskInode {
            extended: false,
            format,
            xattr_count: map.read_u16(off + 2)?,
            mode: map.read_u16(off + 4)?,
            nlink: map.read_u16(off + 6)? as u32,
            size: map.read_u32(off + 8)? as u64,
            union_field: map.read_u32(off + 16)?,
            ino: map.read_u32(off + 20)?,
            uid: map.read_u16(off + 24)? as u32,
            gid: map.read_u16(off + 26)? as u32,
            mtime: 0,
            mtime_nsec: 0,
        })
    }
}

/// A decoded directory entry record.
#[derive(Clone, Copy, Debug, PartialEq, Eq, Structural)]
pub struct Dirent {
    /// Nid of the child inode.
    pub nid: u64,
    /// Offset of the entry's name within its directory block.
    pub name_off: u16,
    /// File type tag of the child.
    pub file_type: u8,
}

/// The directory entry decoded from the bytes at `off`.
pub open spec fn dirent_at(b: Seq<u8>, off: int) -> Dirent {
    Dirent { nid: le64_at(b, off), name_off: le16_at(b, off + 8), file_type: b[off + 10] }
}

/// Read and decode the directory entry record at `off`.
pub fn read_dirent(map: &MapState, off: usize) -> (r: RafsResult<Dirent>)
    ensures
        r is Ok <==> range_in(map@, off as int, DIRENT_SIZE as int),
        r matches Ok(d) ==> d == dirent_at(map@, off as int),
{
    map.validate_range(off, DIRENT_SIZE)?;
    Ok(Dirent {
        nid: map.read_u64(off)?,
        name_off: map.read_u16(off + 8)?,
        file_type: map.read_u8(off + 10)?,
    })
}

/// A decoded inline xattr entry header.
#[derive(Clone, Copy, Debug, PartialEq, Eq, Structural)]
pub struct XattrEntry {
    /// Length of the name suffix stored after the record.
    pub name_len: u8,
    /// Namespace prefix code.
    pub name_index: u8,
    /// Length of the value stored after the name suffix.
    pub value_size: u16,
}

/// The xattr entry decoded from the bytes at `off`.
pub open spec fn xattr_entry_at(b: Seq<u8>, off: int) -> XattrEntry {
    XattrEntry { name_len: b[off], name_index: b[off + 1], value_size: le16_at(b, off + 2) }
}

/// Read and decode the xattr entry record at `off`.
pub fn read_xattr_entry(map: &MapState, off: usize) -> (r: RafsResult<XattrEntry>)
    ensures
        r is Ok <==> range_in(map@, off as int, XATTR_ENTRY_SIZE as int),
        r matches Ok(e) ==> e == xattr_entry_at(map@, off as int),
{
    map.validate_range(off, XATTR_ENTRY_SIZE)?;
    Ok(XattrEntry {
        name_len: map.read_u8(off)?,
        name_index: map.read_u8(off + 1)?,
        value_size: map.read_u16(off + 2)?,
    })
}

/// A decoded on-inode chunk-address record.
///
/// It identifies a chunk logically — which blob, which chunk of that blob,
/// and at which 4 KiB block of the file's uncompressed content — but carries
/// no physical offsets; those live in the sidecar chunk table.
#[derive(Clone, Copy, Debug, PartialEq, Eq, Structural)]
pub struct ChunkAddr {
    /// Index of the blob holding the chunk, into the blob table.
    pub blob_index: u16,
    /// Index of the chunk within that blob.
    pub blob_ci_index: u16,
    /// Uncompressed offset of the chunk in units of 4 KiB blocks.
    pub block_addr: u32,
}

/// The chunk-address record decoded from the bytes at `off`.
pub open spec fn chunk_addr_at(b: Seq<u8>, off: int) -> ChunkAddr {
    ChunkAddr {
        blob_index: le16_at(b, off),
        blob_ci_index: le16_at(b, off + 2),
        block_addr: le32_at(b, off + 4),
    }
}

impl ChunkAddr {
    /// The record packed into one 64-bit key for the lazy chunk index.
    pub open spec fn spec_key(self) -> u64 {
        ((self.blob_index as int) + (self.blob_ci_index as int) * 0x1_0000 + (
        self.block_addr as int) * 0x1_0000_0000) as u64
    }

    /// Pack the record into one 64-bit key for the lazy chunk index.
    pub fn key(&self) -> (k: u64)
        ensures
            k == self.spec_key(),
    {
        (self.blob_index as u64) + (self.blob_ci_index as u64) * 0x1_0000 + (self.block_addr
            as u64) * 0x1_0000_0000
    }
}

/// Read and decode the chunk-address record at `off`.
pub fn read_chunk_addr(map: &MapState, off: usize) -> (r: RafsResult<ChunkAddr>)
    ensures
        r is Ok <==> range_in(map@, off as int, CHUNK_ADDR_SIZE as int),
        r matches Ok(c) ==> c == chunk_addr_at(map@, off as int),
{
    map.validate_range(off, CHUNK_ADDR_SIZE)?;
    Ok(ChunkAddr {
        blob_index: map.read_u16(off)?,
        blob_ci_index: map.read_u16(off + 2)?,
        block_addr: map.read_u32(off + 4)?,
    })
}

/// A decoded sidecar chunk-info row, minus its leading 32-byte digest.
///
/// The row carries the full physical description of one chunk; the digest is
/// read separately because it is variable-width data.
#[derive(Clone, Copy, Debug, PartialEq, Eq, Structural)]
pub struct ChunkInfoRow {
    /// Index of the blob holding the chunk.
    pub blob_index: u32,
    /// Flag bits; bit 0 marks the chunk as compressed.
    pub flags: u32,
    /// Size of the chunk inside the blob.
    pub compressed_size: u32,
    /// Size of the chunk's uncompressed content.
    pub uncompressed_size: u32,
    /// Offset of the chunk inside the blob.
    pub compressed_offset: u64,
    /// Offset of the chunk in the file's uncompressed content space.
    pub uncompressed_offset: u64,
    /// Hint: offset of the chunk within the original file.
    pub file_offset: u64,
    /// Global index of the chunk within its blob.
    pub index: u32,
}

/// Flag bit marking a chunk as compressed in its blob.
pub const CHUNK_FLAG_COMPRESSED: u32 = 1;

/// The chunk-info row decoded from the bytes at `off` (skipping the digest).
pub open spec fn chunk_info_at(b: Seq<u8>, off: int) -> ChunkInfoRow {
    ChunkInfoRow {
        blob_index: le32_at(b, off + 32),
        flags: le32_at(b, off + 36),
        compressed_size: le32_at(b, off + 40),
        uncompressed_size: le32_at(b, off + 44),
        compressed_offset: le64_at(b, off + 48),
        uncompressed_offset: le64_at(b, off + 56),
        file_offset: le64_at(b, off + 64),
        index: le32_at(b, off + 72),
    }
}

/// The 32-byte digest that leads the chunk-info row at `off`.
pub open spec fn chunk_digest_at(b: Seq<u8>, off: int) -> Seq<u8> {
    b.subrange(off, off + 32)
}

/// Read and decode the chunk-info row at `off`.
pub fn read_chunk_info(map: &MapState, off: usize) -> (r: RafsResult<ChunkInfoRow>)
    ensures
        r is Ok <==> range_in(map@, off as int, CHUNK_INFO_SIZE as int),
        r matches Ok(c) ==> c == chunk_info_at(map@, off as int),
{
    map.validate_range(off, CHUNK_INFO_SIZE)?;
    Ok(ChunkInfoRow {
        blob_index: map.read_u32(off + 32)?,
        flags: map.read_u32(off + 36)?,
        compressed_size: map.read_u32(off + 40)?,
        uncompressed_size: map.read_u32(off + 44)?,
        compressed_offset: map.read_u64(off + 48)?,
        uncompressed_offset: map.read_u64(off + 56)?,
        file_offset: map.read_u64(off + 64)?,
        index: map.read_u32(off + 72)?,
    })
}

} // verus!
