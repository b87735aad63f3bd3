//! Inode handles: thin per-inode views over one snapshot of the mapping.
//!
//! A handle pins the snapshot it was materialized from, the byte offset of
//! its inode slot, a decoded copy of the record and the precomputed block
//! count; the optional parent nid and name are filled in by the directory
//! walker, since non-directory inodes do not store them on disk.

use vstd::prelude::*;

use std::sync::Arc;

verus! {

use crate::layout::{
    inode_at, inode_record_in, spec_div_ceil, spec_format_clean, spec_inode_size, spec_layout,
    spec_round_up, div_ceil_u64, DiskInode, EROFS_BLOCK_SIZE, EROFS_INODE_CHUNK_BASED,
    EROFS_INODE_FLAT_INLINE, EROFS_INODE_FLAT_PLAIN, EROFS_INODE_SLOT_SIZE, XATTR_ENTRY_SIZE,
    XATTR_HEADER_SIZE,
    read_inode,
};
use crate::meta::{Attr, Entry, RafsSuperMeta, RAFS_ATTR_BLOCK_SIZE};
use crate::state::DirectMappingState;
use crate::{RafsError, RafsResult};

/// Mask of the file-type bits of a POSIX mode word.
pub const S_IFMT: u16 = 0xf000;

/// File-type bits of a directory.
pub const S_IFDIR: u16 = 0x4000;

/// File-type bits of a regular file.
pub const S_IFREG: u16 = 0x8000;

/// File-type bits of a symbolic link.
pub const S_IFLNK: u16 = 0xa000;

/// Byte offset of the inode region: the metadata block address in 4 KiB units.
pub open spec fn spec_meta_offset(meta: RafsSuperMeta) -> int {
    meta.meta_blkaddr * (EROFS_BLOCK_SIZE as int)
}

/// Byte offset of the inode slot a nid addresses.
pub open spec fn spec_slot_offset(meta: RafsSuperMeta, nid: u64) -> int {
    spec_meta_offset(meta) + nid * (EROFS_INODE_SLOT_SIZE as int)
}

/// The nid whose slot sits at byte offset `off`.
pub open spec fn spec_ino_of(meta: RafsSuperMeta, off: int) -> u64 {
    ((off - spec_meta_offset(meta)) / (EROFS_INODE_SLOT_SIZE as int)) as u64
}

/// Size of the inline xattr body: a header plus `count - 1` entry slots, or
/// nothing when the count is zero.
pub open spec fn spec_xattr_size(d: DiskInode) -> int {
    if d.xattr_count == 0 {
        0
    } else {
        XATTR_HEADER_SIZE + (d.xattr_count - 1) * (XATTR_ENTRY_SIZE as int)
    }
}

/// Size of the inode record and its inline xattr body, rounded up to the
/// 8-byte alignment of the chunk-address array that may follow.
pub open spec fn spec_inode_xattr_size(d: DiskInode) -> int {
    spec_round_up(spec_inode_size(d.format) + spec_xattr_size(d), 8)
}

/// `nid -> slot offset -> nid` is the identity for every nid.
pub proof fn lemma_ino_offset_roundtrip(meta: RafsSuperMeta, nid: u64)
    ensures
        spec_ino_of(meta, spec_slot_offset(meta, nid)) == nid,
{
    let base = spec_meta_offset(meta);
    assert((base + nid * 32 - base) / 32 == nid) by (nonlinear_arith);
}

/// `slot offset -> nid -> slot offset` is the identity for every offset that
/// lies on a slot boundary at or after the inode region.
pub proof fn lemma_offset_ino_roundtrip(meta: RafsSuperMeta, off: int)
    requires
        spec_meta_offset(meta) <= off,
        (off - spec_meta_offset(meta)) % (EROFS_INODE_SLOT_SIZE as int) == 0,
        off - spec_meta_offset(meta) <= u64::MAX * 32,
    ensures
        spec_slot_offset(meta, spec_ino_of(meta, off)) == off,
{
    let base = spec_meta_offset(meta);
    let d = off - base;
    assert(32 * (d / 32) == d) by (nonlinear_arith)
        requires
            d % 32 == 0,
            d >= 0,
    ;
    assert(0 <= d / 32 <= u64::MAX) by (nonlinear_arith)
        requires
            0 <= d <= u64::MAX * 32,
    ;
}

/// Byte offset of the inode region, as a u64.
pub fn meta_offset_u64(meta: &RafsSuperMeta) -> (r: u64)
    ensures
        r == spec_meta_offset(*meta),
{
    proof {
        assert((meta.meta_blkaddr as int) * (EROFS_BLOCK_SIZE as int) <= 0xffff_ffff * 4096) by (
        nonlinear_arith)
            requires
                meta.meta_blkaddr <= 0xffff_ffffu32,
        ;
    }
    (meta.meta_blkaddr as u64) * (EROFS_BLOCK_SIZE as u64)
}

/// A handle on one inode of one snapshot.
pub struct OndiskInodeWrapper {
    /// The snapshot this handle reads from.
    pub state: Arc<DirectMappingState>,
    /// Byte offset of the inode's slot in the mapping.
    pub offset: usize,
    /// Decoded copy of the on-disk record at `offset`.
    pub disk: DiskInode,
    /// `ceil(size / 4096)`: number of content blocks of the inode.
    pub blocks_count: u64,
    /// Cached nid of the parent directory, filled by the directory walker.
    pub parent_inode: Option<u64>,
    /// Cached name of the inode, filled by the directory walker.
    pub name: Option<Vec<u8>>,
}

impl OndiskInodeWrapper {
    /// The mapped bytes of this handle's snapshot.
    pub open spec fn bytes(&self) -> Seq<u8> {
        self.state@.bytes
    }

    /// The superblock metadata of this handle's snapshot.
    pub open spec fn meta(&self) -> RafsSuperMeta {
        self.state@.meta
    }

    /// Well-formedness: the record is contained in the mapping, the decoded
    /// copy and block count match it, and the offset addresses a whole slot
    /// inside the inode region.
    pub open spec fn wf(&self) -> bool {
        &&& inode_record_in(self.bytes(), self.offset as int)
        &&& self.disk == inode_at(self.bytes(), self.offset as int)
        &&& self.blocks_count == spec_div_ceil(self.disk.size as int, EROFS_BLOCK_SIZE as int)
        &&& spec_meta_offset(self.meta()) <= self.offset as int
        &&& (self.offset as int - spec_meta_offset(self.meta())) % (EROFS_INODE_SLOT_SIZE as int)
            == 0
    }

    /// The nid this handle addresses.
    pub open spec fn spec_ino(&self) -> u64 {
        spec_ino_of(self.meta(), self.offset as int)
    }

    /// Materialize the handle for nid `nid` of snapshot `state`.
    ///
    /// Fails with `InvalidData` exactly when the slot's inode record is not
    /// contained in the mapping.
    pub fn new(state: Arc<DirectMappingState>, nid: u64) -> (r: RafsResult<OndiskInodeWrapper>)
        ensures
            r is Ok <==> inode_record_in(state@.bytes, spec_slot_offset(state@.meta, nid)),
            r matches Ok(w) ==> {
                &&& w.wf()
                &&& w.state == state
                &&& w.offset == spec_slot_offset(state@.meta, nid)
                &&& w.spec_ino() == nid
                &&& w.parent_inode is None
                &&& w.name is None
            },
    {
        let map_len = state.map.len();
        let meta_offset = meta_offset_u64(&state.meta);
        let slot = match nid.checked_mul(EROFS_INODE_SLOT_SIZE as u64) {
            Some(v) => v,
            None => {
                return Err(RafsError::InvalidData);
            },
        };
        let off_u64 = match meta_offset.checked_add(slot) {
            Some(v) => v,
            None => {
                return Err(RafsError::InvalidData);
            },
        };
        if off_u64 > (usize::MAX as u64) || off_u64 as usize >= map_len {
            return Err(RafsError::InvalidData);
        }
        let offset = off_u64 as usize;
        let disk = read_inode(&state.map, offset)?;
        let blocks_count = div_ceil_u64(disk.size, EROFS_BLOCK_SIZE as u64);
        proof {
            lemma_ino_offset_roundtrip(state@.meta, nid);
        }
        Ok(OndiskInodeWrapper {
            state,
            offset,
            disk,
            blocks_count,
            parent_inode: None,
            name: None,
        })
    }

    /// The nid this handle addresses.
    pub fn ino(&self) -> (r: u64)
        requires
            self.wf(),
        ensures
            r == self.spec_ino(),
    {
        let meta_offset = meta_offset_u64(&self.state.meta);
        ((self.offset as u64) - meta_offset) / (EROFS_INODE_SLOT_SIZE as u64)
    }

    /// Size of the inode's content in bytes.
    pub fn size(&self) -> (r: u64)
        ensures
            r == self.disk.size,
    {
        self.disk.size
    }

    /// The chunk size of this filesystem.
    pub fn chunk_size(&self) -> (r: u32)
        ensures
            r == self.meta().chunk_size,
    {
        self.state.meta.chunk_size
    }

    /// The inode's POSIX mode word.
    pub fn mode(&self) -> (r: u16)
        ensures
            r == self.disk.mode,
    {
        self.disk.mode
    }

    /// The file-type bits of the inode's mode word.
    pub fn mode_format_bits(&self) -> (r: u16)
        ensures
            r == self.disk.mode & S_IFMT,
    {
        self.disk.mode & S_IFMT
    }

    /// True when the inode is a directory.
    pub fn is_dir(&self) -> (r: bool)
        ensures
            r == (self.disk.mode & S_IFMT == S_IFDIR),
    {
        self.mode_format_bits() == S_IFDIR
    }

    /// True when the inode is a symbolic link.
    pub fn is_symlink(&self) -> (r: bool)
        ensures
            r == (self.disk.mode & S_IFMT == S_IFLNK),
    {
        self.mode_format_bits() == S_IFLNK
    }

    /// True when the inode is a regular file.
    pub fn is_reg(&self) -> (r: bool)
        ensures
            r == (self.disk.mode & S_IFMT == S_IFREG),
    {
        self.mode_format_bits() == S_IFREG
    }

    /// True when the inode is a regular file with more than one link.
    pub fn is_hardlink(&self) -> (r: bool)
        ensures
            r == (self.disk.nlink > 1 && self.disk.mode & S_IFMT == S_IFREG),
    {
        self.disk.nlink > 1 && self.is_reg()
    }

    /// True when the inode carries inline extended attributes.
    pub fn has_xattr(&self) -> (r: bool)
        ensures
            r == (self.disk.xattr_count > 0),
    {
        self.disk.xattr_count > 0
    }

    /// The device number of a special file (the union_field field).
    pub fn rdev(&self) -> (r: u32)
        ensures
            r == self.disk.union_field,
    {
        self.disk.union_field
    }

    /// The project id of the inode; this format stores none.
    pub fn projid(&self) -> (r: u32)
        ensures
            r == 0,
    {
        0
    }

    /// Size in bytes of the inode record itself.
    pub fn inode_size(&self) -> (r: usize)
        ensures
            r == spec_inode_size(self.disk.format),
    {
        if self.disk.format & 1 == 1 {
            64
        } else {
            32
        }
    }

    /// Size in bytes of the inline xattr body.
    pub fn xattr_size(&self) -> (r: usize)
        ensures
            r == spec_xattr_size(self.disk),
    {
        if self.disk.xattr_count == 0 {
            0
        } else {
            XATTR_HEADER_SIZE + (self.disk.xattr_count as usize - 1) * XATTR_ENTRY_SIZE
        }
    }

    /// Size of the record plus xattr body, rounded up to 8-byte alignment.
    pub fn inode_xattr_size(&self) -> (r: usize)
        ensures
            r == spec_inode_xattr_size(self.disk),
    {
        let sz = self.inode_size() + self.xattr_size();
        let rem = sz % 8;
        if rem == 0 {
            sz
        } else {
            sz + (8 - rem)
        }
    }

    /// POSIX attributes of the inode.
    pub fn get_attr(&self) -> (a: Attr)
        requires
            self.wf(),
        ensures
            a.ino == self.spec_ino(),
            a.size == self.disk.size,
            a.mode == self.disk.mode as u32,
            a.nlink == self.disk.nlink,
            a.blocks == spec_div_ceil(self.disk.size as int, 512),
            a.uid == self.disk.uid && a.gid == self.disk.gid,
            a.mtime == self.disk.mtime && a.mtimensec == self.disk.mtime_nsec,
            a.blksize == RAFS_ATTR_BLOCK_SIZE,
            a.rdev == self.disk.union_field,
    {
        Attr {
            ino: self.ino(),
            size: self.disk.size,
            blocks: div_ceil_u64(self.disk.size, 512),
            mtime: self.disk.mtime,
            mtimensec: self.disk.mtime_nsec,
            mode: self.disk.mode as u32,
            nlink: self.disk.nlink,
            uid: self.disk.uid,
            gid: self.disk.gid,
            rdev: self.disk.union_field,
            blksize: RAFS_ATTR_BLOCK_SIZE,
        }
    }

    /// The lookup entry of the inode: its attributes with the filesystem's
    /// default timeouts.
    pub fn get_entry(&self) -> (e: Entry)
        requires
            self.wf(),
        ensures
            e.inode == self.spec_ino(),
            e.generation == 0,
            e.attr_timeout_secs == self.meta().attr_timeout_secs,
            e.entry_timeout_secs == self.meta().entry_timeout_secs,
            e.attr.ino == self.spec_ino(),
            e.attr.size == self.disk.size,
    {
        Entry {
            attr: self.get_attr(),
            inode: self.ino(),
            generation: 0,
            attr_timeout_secs: self.state.meta.attr_timeout_secs,
            entry_timeout_secs: self.state.meta.entry_timeout_secs,
        }
    }

    /// Size of the symlink target, which this format stores as the content
    /// size.
    pub fn get_symlink_size(&self) -> (r: u16)
        ensures
            r == self.disk.size as u16,
    {
        self.disk.size as u16
    }

    /// The cached parent nid, or `InvalidArgument` when none was filled in.
    pub fn parent(&self) -> (r: RafsResult<u64>)
        ensures
            r is Ok <==> self.parent_inode is Some,
            r matches Ok(p) ==> self.parent_inode == Some(p),
    {
        match self.parent_inode {
            Some(p) => Ok(p),
            None => Err(RafsError::InvalidArgument),
        }
    }

    /// The cached name, or `InvalidArgument` when none was filled in.
    pub fn name(&self) -> (r: RafsResult<&Vec<u8>>)
        ensures
            r is Ok <==> self.name is Some,
            r matches Ok(n) ==> self.name matches Some(m) && m@ == n@,
    {
        match &self.name {
            Some(n) => Ok(n),
            None => Err(RafsError::InvalidArgument),
        }
    }

    /// Size of the cached name; 0 when none was filled in.
    pub fn get_name_size(&self) -> (r: u16)
        ensures
            self.name matches Some(n) ==> r == n@.len() as u16,
            self.name is None ==> r == 0,
    {
        match &self.name {
            Some(n) => n.len() as u16,
            None => 0,
        }
    }

    /// Fill in the cached parent nid; the one-shot setter keeps an already
    /// cached value.
    pub fn set_parent(&mut self, parent: u64)
        ensures
            old(self).parent_inode is Some ==> *final(self) == *old(self),
            old(self).parent_inode is None ==> *final(self) == (OndiskInodeWrapper {
                parent_inode: Some(parent),
                ..*old(self)
            }),
    {
        if self.parent_inode.is_none() {
            self.parent_inode = Some(parent);
        }
    }

    /// Fill in the cached name; the one-shot setter keeps an already cached
    /// value.
    pub fn set_name(&mut self, name: Vec<u8>)
        ensures
            old(self).name is Some ==> *final(self) == *old(self),
            old(self).name is None ==> *final(self) == (OndiskInodeWrapper {
                name: Some(name),
                ..*old(self)
            }),
    {
        if self.name.is_none() {
            self.name = Some(name);
        }
    }

    /// True when the inode has no content.
    pub fn is_empty_size(&self) -> (r: bool)
        ensures
            r == (self.disk.size == 0),
    {
        self.disk.size == 0
    }

    /// The v5-dialect inode flags, which this format does not store.
    pub fn flags(&self) -> (r: u64)
        ensures
            r == 0,
    {
        0
    }

    /// Byte offset of content block `index` of this inode.
    ///
    /// Plain layout puts block `k` at `(union_field + k) * 4096`; the inline layout
    /// does the same except for the last block, which sits right after the
    /// inode record and its xattr body. Reserved layouts are `Incompatible`,
    /// a chunk-based or unknown layout is `InvalidData`, as is an offset
    /// beyond what the platform can address.
    pub fn data_block_offset(&self, index: u64) -> (r: RafsResult<usize>)
        requires
            self.wf(),
        ensures
            !spec_format_clean(self.disk.format) ==> r == Err::<usize, _>(
                RafsError::Incompatible(self.disk.format),
            ),
            spec_format_clean(self.disk.format) && spec_layout(self.disk.format)
                == EROFS_INODE_CHUNK_BASED ==> r == Err::<usize, _>(RafsError::InvalidData),
            spec_format_clean(self.disk.format) && spec_layout(self.disk.format)
                != EROFS_INODE_FLAT_PLAIN && spec_layout(self.disk.format)
                != EROFS_INODE_FLAT_INLINE && spec_layout(self.disk.format)
                != EROFS_INODE_CHUNK_BASED ==> r == Err::<usize, _>(
                RafsError::Incompatible(self.disk.format),
            ),
            r matches Ok(off) ==> spec_format_clean(self.disk.format) && off
                == spec_data_block_offset(self.disk, self.offset as int, index as int),
            spec_format_clean(self.disk.format) && (spec_layout(self.disk.format)
                == EROFS_INODE_FLAT_PLAIN || spec_layout(self.disk.format)
                == EROFS_INODE_FLAT_INLINE) ==> (r is Ok <==> spec_data_block_offset(
                self.disk,
                self.offset as int,
                index as int,
            ) <= usize::MAX),
    {
        if !((self.disk.format >> 4) == 0) {
            return Err(RafsError::Incompatible(self.disk.format));
        }
        let layout = (self.disk.format >> 1) & 7;
        if layout == EROFS_INODE_FLAT_INLINE && self.blocks_count > 0 && index == self.blocks_count - 1 {
            match self.offset.checked_add(self.inode_xattr_size()) {
                Some(v) => Ok(v),
                None => Err(RafsError::InvalidData),
            }
        } else if layout == EROFS_INODE_FLAT_PLAIN || layout == EROFS_INODE_FLAT_INLINE {
            let pos_opt = (self.disk.union_field as u64).checked_add(index);
            if pos_opt.is_none() {
                proof {
                    lemma_mul_bound_contra((self.disk.union_field + index) as int, EROFS_BLOCK_SIZE as int);
                }
                return Err(RafsError::InvalidData);
            }
            let byte_opt = pos_opt.unwrap().checked_mul(EROFS_BLOCK_SIZE as u64);
            if byte_opt.is_none() {
                proof {
                    lemma_mul_bound_contra((self.disk.union_field + index) as int, EROFS_BLOCK_SIZE as int);
                }
                return Err(RafsError::InvalidData);
            }
            let byte_pos = byte_opt.unwrap();
            if byte_pos > (usize::MAX as u64) {
                return Err(RafsError::InvalidData);
            }
            Ok(byte_pos as usize)
        } else if layout == EROFS_INODE_CHUNK_BASED {
            Err(RafsError::InvalidData)
        } else {
            Err(RafsError::Incompatible(self.disk.format))
        }
    }
}

/// Byte offset of content block `index` of an inode whose record sits at
/// `ino_off`, under the plain or inline layout.
pub open spec fn spec_data_block_offset(d: DiskInode, ino_off: int, index: int) -> int {
    if spec_layout(d.format) == EROFS_INODE_FLAT_INLINE && index == spec_div_ceil(
        d.size as int,
        EROFS_BLOCK_SIZE as int,
    ) - 1 {
        ino_off + spec_inode_xattr_size(d)
    } else {
        (d.union_field + index) * (EROFS_BLOCK_SIZE as int)
    }
}

/// When a product exceeds u64 range it also exceeds usize range; used to
/// discharge the error paths of block-offset arithmetic.
proof fn lemma_mul_bound_contra(v: int, b: int)
    requires
        b >= 1,
        v * b > u64::MAX,
    ensures
        v * b > usize::MAX,
{
    assert(usize::MAX <= u64::MAX);
}

} // verus!
