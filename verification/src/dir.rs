//! The directory reader: iteration over tail-packed directory blocks.
//!
//! A directory's content is a run of 4 KiB blocks; each holds a dirent array
//! at its start and a packed name region behind it. The number of entries in
//! a block is derived from the first entry's name offset, the length of a
//! name from the next entry's name offset — except for the last entry of a
//! block, whose name runs to the block's limit and is trimmed of NUL padding.
//! The last block of a directory may be shorter than 4 KiB; its limit is
//! `size mod 4096` (a full block when the size is an exact multiple).
//!
//! The module defines the mathematical entry list of a directory and proves
//! the walker returns exactly a suffix of it, which is what makes resumed
//! walks fit together.

use vstd::prelude::*;

verus! {

use crate::inode::{spec_data_block_offset, OndiskInodeWrapper, S_IFDIR, S_IFMT, S_IFREG};
use crate::layout::{
    dirent_at, div_ceil_u64, read_dirent, spec_div_ceil, spec_format_clean, spec_layout, Dirent,
    DIRENT_SIZE, EROFS_BLOCK_SIZE, EROFS_INODE_FLAT_INLINE, EROFS_INODE_FLAT_PLAIN,
};
use crate::map::range_in;
use crate::names::{cstr_of, copy_cstr};
use crate::{RafsError, RafsResult};

/// Mathematical view of one directory entry.
pub ghost struct DirEntryView {
    /// Nid of the child inode.
    pub nid: u64,
    /// Name of the entry, as bytes.
    pub name: Seq<u8>,
    /// File type tag of the child.
    pub file_type: u8,
}

/// One directory entry handed out by the walker: the child's nid, name and
/// type tag, plus the offset at which a later walk resumes after this entry.
pub struct ChildEntry {
    /// Nid of the child inode.
    pub nid: u64,
    /// Name of the entry.
    pub name: Vec<u8>,
    /// File type tag of the child.
    pub file_type: u8,
    /// Linear offset to pass to resume the walk right after this entry.
    pub next_offset: u64,
}

impl View for ChildEntry {
    type V = DirEntryView;

    open spec fn view(&self) -> DirEntryView {
        DirEntryView { nid: self.nid, name: self.name@, file_type: self.file_type }
    }
}

/// Number of content blocks of a directory of `size` bytes.
pub open spec fn spec_nblocks(size: u64) -> int {
    spec_div_ceil(size as int, EROFS_BLOCK_SIZE as int)
}

/// Usable bytes of block `k`: 4096 for every block but the last, which holds
/// `size mod 4096` bytes unless the size is an exact multiple of 4096.
pub open spec fn spec_block_limit(size: u64, k: int) -> int {
    if k == spec_nblocks(size) - 1 {
        if size as int % (EROFS_BLOCK_SIZE as int) == 0 {
            EROFS_BLOCK_SIZE as int
        } else {
            size as int % (EROFS_BLOCK_SIZE as int)
        }
    } else {
        EROFS_BLOCK_SIZE as int
    }
}

/// Number of dirents in the block at `bo`: the first entry's name offset
/// divided by the dirent size.
pub open spec fn spec_block_count(b: Seq<u8>, bo: int) -> int {
    dirent_at(b, bo).name_off as int / (DIRENT_SIZE as int)
}

/// Head-level well-formedness of the block at `bo` with limit `l`: the block
/// is contained in the mapping and its first entry's name offset describes a
/// non-empty dirent array that fits in front of the name region.
pub open spec fn head_wf(b: Seq<u8>, bo: int, l: int) -> bool {
    &&& range_in(b, bo, l)
    &&& l >= DIRENT_SIZE as int
    &&& dirent_at(b, bo).name_off as int % (DIRENT_SIZE as int) == 0
    &&& dirent_at(b, bo).name_off >= DIRENT_SIZE as u16
    &&& dirent_at(b, bo).name_off as int <= l
}

/// The name of entry `j` has a defined extent: its name offset and the next
/// entry's (or the block limit, for the last entry) are ordered and stay
/// within the block.
pub open spec fn entry_name_ok(b: Seq<u8>, bo: int, l: int, j: int) -> bool {
    let noff = dirent_at(b, bo + (DIRENT_SIZE as int) * j).name_off as int;
    if j < spec_block_count(b, bo) - 1 {
        noff <= dirent_at(b, bo + (DIRENT_SIZE as int) * (j + 1)).name_off as int <= l
    } else {
        noff <= l
    }
}

/// Full well-formedness of the block at `bo`: on top of `head_wf`, every
/// entry's name has a defined extent.
pub open spec fn block_wf(b: Seq<u8>, bo: int, l: int) -> bool {
    &&& head_wf(b, bo, l)
    &&& forall|j: int| 0 <= j < spec_block_count(b, bo) ==> #[trigger] entry_name_ok(b, bo, l, j)
}

/// The entry `j` of the block at `bo` with limit `l`.
pub open spec fn spec_block_entry(b: Seq<u8>, bo: int, l: int, j: int) -> DirEntryView {
    let d = dirent_at(b, bo + (DIRENT_SIZE as int) * j);
    let cnt = spec_block_count(b, bo);
    let name = if j < cnt - 1 {
        b.subrange(
            bo + d.name_off as int,
            bo + dirent_at(b, bo + (DIRENT_SIZE as int) * (j + 1)).name_off as int,
        )
    } else {
        cstr_of(b.subrange(bo + d.name_off as int, bo + l))
    };
    DirEntryView { nid: d.nid, name, file_type: d.file_type }
}

/// All entries of the block at `bo` with limit `l`, in position order.
pub open spec fn block_entries(b: Seq<u8>, bo: int, l: int) -> Seq<DirEntryView> {
    Seq::new(spec_block_count(b, bo) as nat, |j: int| spec_block_entry(b, bo, l, j))
}

impl OndiskInodeWrapper {
    /// Byte offset of directory block `k` in the mapping.
    pub open spec fn spec_block_off(&self, k: int) -> int {
        spec_data_block_offset(self.disk, self.offset as int, k)
    }

    /// Full well-formedness of directory block `k`.
    pub open spec fn dir_block_wf(&self, k: int) -> bool {
        block_wf(self.bytes(), self.spec_block_off(k), spec_block_limit(self.disk.size, k))
    }

    /// The entries of directory block `k`, in position order.
    pub open spec fn dir_block(&self, k: int) -> Seq<DirEntryView> {
        block_entries(self.bytes(), self.spec_block_off(k), spec_block_limit(self.disk.size, k))
    }

    /// Well-formedness of the whole directory: it has content, uses a block
    /// data layout with a clean format word, and every block is well-formed.
    pub open spec fn dir_wf(&self) -> bool {
        &&& self.disk.size > 0
        &&& spec_format_clean(self.disk.format)
        &&& (spec_layout(self.disk.format) == EROFS_INODE_FLAT_PLAIN || spec_layout(
            self.disk.format,
        ) == EROFS_INODE_FLAT_INLINE)
        &&& forall|k: int| 0 <= k < spec_nblocks(self.disk.size) ==> self.dir_block_wf(k)
    }

    /// The entries of the first `k` directory blocks, in block order.
    pub open spec fn dir_entries_upto(&self, k: int) -> Seq<DirEntryView>
        decreases k,
    {
        if k <= 0 {
            Seq::empty()
        } else {
            self.dir_entries_upto(k - 1) + self.dir_block(k - 1)
        }
    }

    /// The full entry list of the directory: all blocks' entries, read in
    /// block-then-position order. `.` and `..` are entries like any other.
    pub open spec fn dir_entries(&self) -> Seq<DirEntryView> {
        self.dir_entries_upto(spec_nblocks(self.disk.size))
    }

    /// Entry lists of block prefixes are prefixes of the full entry list.
    pub proof fn lemma_upto_prefix(&self, k: int)
        requires
            0 <= k <= spec_nblocks(self.disk.size),
        ensures
            self.dir_entries_upto(k).len() <= self.dir_entries().len(),
            self.dir_entries().take(self.dir_entries_upto(k).len() as int)
                == self.dir_entries_upto(k),
        decreases spec_nblocks(self.disk.size) - k,
    {
        let n = spec_nblocks(self.disk.size);
        if k == n {
            assert(self.dir_entries().take(self.dir_entries().len() as int) =~= self.dir_entries());
        } else {
            self.lemma_upto_prefix(k + 1);
            let lk = self.dir_entries_upto(k).len() as int;
            let lk1 = self.dir_entries_upto(k + 1).len() as int;
            assert(self.dir_entries_upto(k + 1) == self.dir_entries_upto(k) + self.dir_block(k));
            assert(lk <= lk1);
            assert(self.dir_entries().take(lk) =~= self.dir_entries().take(lk1).take(lk));
            assert(self.dir_entries_upto(k + 1).take(lk) =~= self.dir_entries_upto(k));
        }
    }

    /// Block prefixes only grow: a longer prefix holds at least as many
    /// entries.
    pub proof fn lemma_upto_monotone(&self, k1: int, k2: int)
        requires
            0 <= k1 <= k2,
        ensures
            self.dir_entries_upto(k1).len() <= self.dir_entries_upto(k2).len(),
        decreases k2 - k1,
    {
        if k1 < k2 {
            self.lemma_upto_monotone(k1, k2 - 1);
            assert(self.dir_entries_upto(k2) == self.dir_entries_upto(k2 - 1) + self.dir_block(
                k2 - 1,
            ));
        }
    }

    /// Entry `j` of block `k` is entry `upto(k).len() + j` of the full list.
    pub proof fn lemma_entry_position(&self, k: int, j: int)
        requires
            0 <= k < spec_nblocks(self.disk.size),
            0 <= j < self.dir_block(k).len(),
        ensures
            self.dir_entries_upto(k).len() + j < self.dir_entries().len(),
            self.dir_entries()[self.dir_entries_upto(k).len() + j] == self.dir_block(k)[j],
    {
        self.lemma_upto_prefix(k + 1);
        let lk = self.dir_entries_upto(k).len() as int;
        assert(self.dir_entries_upto(k + 1) == self.dir_entries_upto(k) + self.dir_block(k));
        assert(self.dir_entries_upto(k + 1)[lk + j] == self.dir_block(k)[j]);
        assert(self.dir_entries().take(self.dir_entries_upto(k + 1).len() as int)[lk + j]
            == self.dir_entries()[lk + j]);
    }

    /// Byte offset, limit and dirent count of directory block `k`.
    ///
    /// Succeeds exactly when the block's geometry is head-level well-formed
    /// (given a clean format word and a block data layout); the count then
    /// equals the model's.
    pub fn block_head(&self, k: u64) -> (r: RafsResult<(usize, usize, usize)>)
        requires
            self.wf(),
            spec_format_clean(self.disk.format),
            spec_layout(self.disk.format) == EROFS_INODE_FLAT_PLAIN || spec_layout(
                self.disk.format,
            ) == EROFS_INODE_FLAT_INLINE,
            k < spec_nblocks(self.disk.size),
        ensures
            r is Ok <==> head_wf(
                self.bytes(),
                self.spec_block_off(k as int),
                spec_block_limit(self.disk.size, k as int),
            ),
            r matches Ok(h) ==> {
                &&& h.0 == self.spec_block_off(k as int)
                &&& h.1 == spec_block_limit(self.disk.size, k as int)
                &&& h.2 == spec_block_count(self.bytes(), self.spec_block_off(k as int))
                &&& h.2 >= 1
            },
    {
        let map_len = self.state.map.len();
        let limit_u64: u64 = if k == self.blocks_count - 1 {
            if self.disk.size % (EROFS_BLOCK_SIZE as u64) == 0 {
                EROFS_BLOCK_SIZE as u64
            } else {
                self.disk.size % (EROFS_BLOCK_SIZE as u64)
            }
        } else {
            EROFS_BLOCK_SIZE as u64
        };
        let limit = limit_u64 as usize;
        let bo = match self.data_block_offset(k) {
            Ok(v) => v,
            Err(_) => {
                return Err(RafsError::InvalidData);
            },
        };
        self.state.map.validate_range(bo, limit)?;
        if limit < DIRENT_SIZE {
            return Err(RafsError::InvalidData);
        }
        let head = match read_dirent(&self.state.map, bo) {
            Ok(d) => d,
            Err(_) => {
                return Err(RafsError::InvalidData);
            },
        };
        let name_off = head.name_off as usize;
        if name_off % DIRENT_SIZE != 0 || name_off < DIRENT_SIZE || name_off > limit {
            return Err(RafsError::InvalidData);
        }
        Ok((bo, limit, name_off / DIRENT_SIZE))
    }

    /// The entry model of a handle depends only on its snapshot, offset and
    /// decoded record: filling in the cached parent or name leaves it
    /// unchanged.
    pub proof fn lemma_dir_entries_same(&self, other: &OndiskInodeWrapper)
        requires
            other.state@ == self.state@,
            other.offset == self.offset,
            other.disk == self.disk,
        ensures
            other.dir_entries() == self.dir_entries(),
    {
        self.lemma_upto_same(other, spec_nblocks(self.disk.size));
    }

    /// Inductive step of `lemma_dir_entries_same` over block prefixes.
    proof fn lemma_upto_same(&self, other: &OndiskInodeWrapper, k: int)
        requires
            other.state@ == self.state@,
            other.offset == self.offset,
            other.disk == self.disk,
        ensures
            other.dir_entries_upto(k) == self.dir_entries_upto(k),
        decreases k,
    {
        if k > 0 {
            self.lemma_upto_same(other, k - 1);
            assert(other.dir_block(k - 1) == self.dir_block(k - 1));
        }
    }

    /// Entry counts are bounded by block geometry: a block holds at most 341
    /// dirents, so any prefix of `k` blocks holds at most `342 * k` entries.
    pub proof fn lemma_upto_len_bound(&self, k: int)
        requires
            0 <= k,
            forall|i: int| 0 <= i < k ==> self.dir_block_wf(i),
        ensures
            self.dir_entries_upto(k).len() <= 342 * k,
        decreases k,
    {
        if k > 0 {
            self.lemma_upto_len_bound(k - 1);
            let bo = self.spec_block_off(k - 1);
            let l = spec_block_limit(self.disk.size, k - 1);
            assert(self.dir_block_wf(k - 1));
            let noff0 = dirent_at(self.bytes(), bo).name_off as int;
            assert(noff0 <= l && l <= EROFS_BLOCK_SIZE as int);
            assert(noff0 / (DIRENT_SIZE as int) <= 342) by (nonlinear_arith)
                requires
                    0 <= noff0 <= 4096,
                    DIRENT_SIZE == 12,
            ;
            assert(self.dir_block(k - 1).len() == spec_block_count(self.bytes(), bo));
        }
    }

    /// The dirent record `j` of the block at `bo`; in-bounds under `head_wf`.
    pub fn block_dirent(&self, bo: usize, limit: usize, count: usize, j: usize) -> (d: Dirent)
        requires
            self.wf(),
            head_wf(self.bytes(), bo as int, limit as int),
            count == spec_block_count(self.bytes(), bo as int),
            j < count,
        ensures
            d == dirent_at(self.bytes(), bo + (DIRENT_SIZE as int) * j),
    {
        let map_len = self.state.map.len();
        proof {
            let noff0 = dirent_at(self.bytes(), bo as int).name_off as int;
            assert((DIRENT_SIZE as int) * count == noff0) by (nonlinear_arith)
                requires
                    count == noff0 / (DIRENT_SIZE as int),
                    noff0 % (DIRENT_SIZE as int) == 0,
                    noff0 >= 0,
                    DIRENT_SIZE == 12,
            ;
            assert((DIRENT_SIZE as int) * (j + 1) <= (DIRENT_SIZE as int) * count) by (
            nonlinear_arith)
                requires
                    j + 1 <= count,
            ;
            assert(bo + (DIRENT_SIZE as int) * j + (DIRENT_SIZE as int) <= bo + limit);
        }
        match read_dirent(&self.state.map, bo + DIRENT_SIZE * j) {
            Ok(d) => d,
            Err(_) => vstd::pervasive::unreached(),
        }
    }

    /// The name of entry `j` of the block at `bo`.
    ///
    /// For every entry but the block's last, the name length is the gap to
    /// the next entry's name offset, and the call succeeds exactly when that
    /// gap is non-negative and ends within the block; the last entry's name
    /// runs to the block limit, trimmed of NUL padding, and always succeeds.
    pub fn block_entry_name(&self, bo: usize, limit: usize, count: usize, j: usize) -> (r:
        RafsResult<Vec<u8>>)
        requires
            self.wf(),
            head_wf(self.bytes(), bo as int, limit as int),
            count == spec_block_count(self.bytes(), bo as int),
            j < count,
        ensures
            r matches Ok(v) ==> v@ == spec_block_entry(
                self.bytes(),
                bo as int,
                limit as int,
                j as int,
            ).name,
            r is Ok <==> entry_name_ok(self.bytes(), bo as int, limit as int, j as int),
    {
        let map_len = self.state.map.len();
        let d = self.block_dirent(bo, limit, count, j);
        let noff = d.name_off as usize;
        if j < count - 1 {
            let next = self.block_dirent(bo, limit, count, j + 1);
            let next_off = next.name_off as usize;
            if next_off < noff || next_off > limit {
                return Err(RafsError::InvalidData);
            }
            let s = self.state.map.get_slice(bo + noff, next_off - noff)?;
            Ok(vstd::slice::slice_to_vec(s))
        } else {
            if noff > limit {
                return Err(RafsError::InvalidData);
            }
            let s = self.state.map.get_slice(bo + noff, limit - noff)?;
            Ok(copy_cstr(s))
        }
    }


    /// Head-level well-formedness of the whole directory: enough to count
    /// entries, without requiring every name extent to be defined.
    pub open spec fn dir_heads_wf(&self) -> bool {
        &&& self.disk.size > 0
        &&& spec_format_clean(self.disk.format)
        &&& (spec_layout(self.disk.format) == EROFS_INODE_FLAT_PLAIN || spec_layout(
            self.disk.format,
        ) == EROFS_INODE_FLAT_INLINE)
        &&& forall|k: int|
            0 <= k < spec_nblocks(self.disk.size) ==> head_wf(
                self.bytes(),
                self.spec_block_off(k),
                spec_block_limit(self.disk.size, k),
            )
    }

    /// Resumed walks fit together: for any split point `k`, the first `k`
    /// entries of a walk from offset 0 followed by the entries of a walk
    /// resumed at offset `k` are exactly the entries of one full walk.
    pub proof fn lemma_readdir_resume(&self, k: int)
        requires
            0 <= k <= self.dir_entries().len(),
        ensures
            self.dir_entries().take(k) + self.dir_entries().skip(k) == self.dir_entries(),
    {
        assert(self.dir_entries().take(k) + self.dir_entries().skip(k) =~= self.dir_entries());
    }

    /// Number of children of a directory, `.` and `..` not counted; for any
    /// other inode, the number of its content chunks.
    ///
    /// A directory whose entry list does not even hold `.` and `..`, or one
    /// with more entries than the count can carry, is rejected rather than
    /// miscounted.
    #[verifier::loop_isolation(false)]
    pub fn get_child_count(&self) -> (r: RafsResult<u32>)
        requires
            self.wf(),
            self.disk.mode & S_IFMT == S_IFDIR || self.meta().chunk_size > 0,
        ensures
            self.disk.mode & S_IFMT != S_IFDIR ==> {
                let chunks = spec_div_ceil(self.disk.size as int, self.meta().chunk_size as int);
                &&& (r is Ok <==> chunks <= u32::MAX)
                &&& (r matches Ok(c) ==> c == chunks)
            },
            self.disk.mode & S_IFMT == S_IFDIR ==> {
                let total = self.dir_entries().len() as int;
                &&& (r is Ok <==> self.dir_heads_wf() && 2 <= total <= u32::MAX + 2)
                &&& (r matches Ok(c) ==> c == total - 2)
            },
    {
        if !self.is_dir() {
            let chunks = div_ceil_u64(self.disk.size, self.chunk_size() as u64);
            if chunks > u32::MAX as u64 {
                return Err(RafsError::InvalidData);
            }
            return Ok(chunks as u32);
        }
        if self.disk.size == 0 {
            return Err(RafsError::NotFound);
        }
        if !self.disk.format_clean() {
            return Err(RafsError::Incompatible(self.disk.format));
        }
        let layout = self.disk.layout();
        if layout == crate::layout::EROFS_INODE_CHUNK_BASED {
            return Err(RafsError::InvalidData);
        }
        if layout != EROFS_INODE_FLAT_PLAIN && layout != EROFS_INODE_FLAT_INLINE {
            return Err(RafsError::Incompatible(self.disk.format));
        }
        let nblocks = self.blocks_count;
        let mut total: u64 = 0;
        let mut k: u64 = 0;
        while k < nblocks
            invariant
                k <= nblocks,
                forall|i: int|
                    0 <= i < k ==> head_wf(
                        self.bytes(),
                        self.spec_block_off(i),
                        spec_block_limit(self.disk.size, i),
                    ),
                total == self.dir_entries_upto(k as int).len(),
                total <= 342 * k,
            decreases nblocks - k,
        {
            let (bo, limit, count) = match self.block_head(k) {
                Ok(h) => h,
                Err(e) => {
                    return Err(e);
                },
            };
            proof {
                assert(count <= 342) by (nonlinear_arith)
                    requires
                        count == dirent_at(self.bytes(), bo as int).name_off as int / (
                        DIRENT_SIZE as int),
                        0 <= dirent_at(self.bytes(), bo as int).name_off as int <= 4096,
                        DIRENT_SIZE == 12,
                ;
                assert(342 * (k as int) + 342 <= 342 * (nblocks as int)) by (nonlinear_arith)
                    requires
                        k < nblocks,
                ;
                assert(nblocks as int <= (u64::MAX as int) / 4096 + 1);
                assert(342 * ((u64::MAX as int) / 4096 + 1) < u64::MAX as int) by (
                nonlinear_arith);
                assert(self.dir_entries_upto(k as int + 1) == self.dir_entries_upto(k as int)
                    + self.dir_block(k as int));
            }
            total = total + count as u64;
            k = k + 1;
        }
        if total < 2 {
            return Err(RafsError::InvalidData);
        }
        if total - 2 > u32::MAX as u64 {
            return Err(RafsError::InvalidData);
        }
        Ok((total - 2) as u32)
    }

    /// The symlink target: the content bytes of the inode, resolved through
    /// its (plain or inline) data layout.
    pub fn get_symlink(&self) -> (r: RafsResult<Vec<u8>>)
        requires
            self.wf(),
        ensures
            r matches Ok(v) ==> v@ == self.bytes().subrange(
                self.spec_block_off(0),
                self.spec_block_off(0) + self.disk.size,
            ),
            spec_format_clean(self.disk.format) && (spec_layout(self.disk.format)
                == EROFS_INODE_FLAT_PLAIN || spec_layout(self.disk.format)
                == EROFS_INODE_FLAT_INLINE) ==> (r is Ok <==> range_in(
                self.bytes(),
                self.spec_block_off(0),
                self.disk.size as int,
            )),
            !spec_format_clean(self.disk.format) ==> r == Err::<Vec<u8>, _>(
                RafsError::Incompatible(self.disk.format),
            ),
    {
        let map_len = self.state.map.len();
        let bo = self.data_block_offset(0)?;
        if self.disk.size > usize::MAX as u64 {
            return Err(RafsError::InvalidData);
        }
        self.state.map.copy_slice(bo, self.disk.size as usize)
    }

    /// Enumerate the directory's entries, skipping the first `entry_offset`.
    ///
    /// Entries come in block-then-position order, `.` and `..` included, and
    /// each carries the offset at which a later walk resumes right after it.
    /// The walk succeeds exactly on well-formed directories and then returns
    /// exactly the suffix of the directory's entry list from `entry_offset`
    /// on, which is what lets a resumed walk continue seamlessly.
    #[verifier::loop_isolation(false)]
    pub fn walk_children_inodes(&self, entry_offset: u64) -> (r: RafsResult<Vec<ChildEntry>>)
        requires
            self.wf(),
        ensures
            self.disk.mode & S_IFMT != S_IFDIR ==> r == Err::<Vec<ChildEntry>, _>(
                RafsError::NotDirectory,
            ),
            self.disk.mode & S_IFMT == S_IFDIR && self.disk.size == 0 ==> r == Err::<
                Vec<ChildEntry>,
                _,
            >(RafsError::NotFound),
            r is Ok <==> (self.disk.mode & S_IFMT == S_IFDIR && self.dir_wf()),
            r matches Ok(v) ==> {
                let es = self.dir_entries();
                let skip = if entry_offset <= es.len() {
                    entry_offset as int
                } else {
                    es.len() as int
                };
                &&& v@.len() == es.len() - skip
                &&& forall|i: int| 0 <= i < v@.len() ==> v@[i]@ == es[skip + i]
                &&& forall|i: int| 0 <= i < v@.len() ==> v@[i].next_offset == skip + i + 1
            },
    {
        if !self.is_dir() {
            return Err(RafsError::NotDirectory);
        }
        if self.disk.size == 0 {
            return Err(RafsError::NotFound);
        }
        if !self.disk.format_clean() {
            return Err(RafsError::Incompatible(self.disk.format));
        }
        let layout = self.disk.layout();
        if layout == crate::layout::EROFS_INODE_CHUNK_BASED {
            return Err(RafsError::InvalidData);
        }
        if layout != EROFS_INODE_FLAT_PLAIN && layout != EROFS_INODE_FLAT_INLINE {
            return Err(RafsError::Incompatible(self.disk.format));
        }
        let nblocks = self.blocks_count;
        let mut out: Vec<ChildEntry> = Vec::new();
        let mut g: u64 = 0;
        let mut k: u64 = 0;
        while k < nblocks
            invariant
                k <= nblocks,
                forall|i: int| 0 <= i < k ==> self.dir_block_wf(i),
                g == self.dir_entries_upto(k as int).len(),
                out@.len() == if g <= entry_offset {
                    0int
                } else {
                    g - entry_offset
                },
                forall|i: int|
                    0 <= i < out@.len() ==> (#[trigger] out@[i])@ == self.dir_entries_upto(
                        k as int,
                    )[entry_offset + i],
                forall|i: int|
                    0 <= i < out@.len() ==> (#[trigger] out@[i]).next_offset == entry_offset + i
                        + 1,
            decreases nblocks - k,
        {
            let (bo, limit, count) = match self.block_head(k) {
                Ok(h) => h,
                Err(e) => {
                    proof {
                        assert(!self.dir_block_wf(k as int));
                    }
                    return Err(e);
                },
            };
            let ghost upto_k = self.dir_entries_upto(k as int);
            let ghost blk = self.dir_block(k as int);
            let mut j: usize = 0;
            while j < count
                invariant
                    bo == self.spec_block_off(k as int),
                    limit == spec_block_limit(self.disk.size, k as int),
                    count == spec_block_count(self.bytes(), bo as int),
                    head_wf(self.bytes(), bo as int, limit as int),
                    k < nblocks,
                    upto_k == self.dir_entries_upto(k as int),
                    blk == self.dir_block(k as int),
                    j <= count,
                    g == upto_k.len() + j,
                    forall|jj: int|
                        0 <= jj < j ==> #[trigger] entry_name_ok(
                            self.bytes(),
                            bo as int,
                            limit as int,
                            jj,
                        ),
                    out@.len() == if g <= entry_offset {
                        0int
                    } else {
                        g - entry_offset
                    },
                    forall|i: int|
                        0 <= i < out@.len() ==> (#[trigger] out@[i])@ == (upto_k + blk.take(
                            j as int,
                        ))[entry_offset + i],
                    forall|i: int|
                        0 <= i < out@.len() ==> (#[trigger] out@[i]).next_offset == entry_offset
                            + i + 1,
                decreases count - j,
            {
                proof {
                    self.lemma_upto_len_bound(k as int);
                    assert(count <= 342) by (nonlinear_arith)
                        requires
                            count == dirent_at(self.bytes(), bo as int).name_off as int / (
                            DIRENT_SIZE as int),
                            0 <= dirent_at(self.bytes(), bo as int).name_off as int <= 4096,
                            DIRENT_SIZE == 12,
                    ;
                    assert(342 * (k as int) + 342 <= 342 * (nblocks as int)) by (nonlinear_arith)
                        requires
                            k < nblocks,
                    ;
                    assert(nblocks as int <= (u64::MAX as int) / 4096 + 1);
                    assert(342 * ((u64::MAX as int) / 4096 + 1) < u64::MAX as int) by (
                    nonlinear_arith);
                    assert(g < u64::MAX);
                }
                let d = self.block_dirent(bo, limit, count, j);
                let name = match self.block_entry_name(bo, limit, count, j) {
                    Ok(n) => n,
                    Err(e) => {
                        proof {
                            assert(!entry_name_ok(self.bytes(), bo as int, limit as int, j as int));
                            assert(!self.dir_block_wf(k as int));
                            assert(!self.dir_wf());
                        }
                        return Err(e);
                    },
                };
                let ghost old_out = out@;
                if g >= entry_offset {
                    let entry = ChildEntry {
                        nid: d.nid,
                        name,
                        file_type: d.file_type,
                        next_offset: g + 1,
                    };
                    proof {
                        assert(entry@ == spec_block_entry(
                            self.bytes(),
                            bo as int,
                            limit as int,
                            j as int,
                        ));
                    }
                    out.push(entry);
                }
                proof {
                    let oldlen = old_out.len() as int;
                    let next = upto_k + blk.take(j + 1);
                    assert(blk.take(j + 1).take(j as int) =~= blk.take(j as int));
                    assert forall|i: int| 0 <= i < out@.len() implies (#[trigger] out@[i])@ == next[
                        entry_offset + i] by {
                        let p = entry_offset + i;
                        if i < oldlen {
                            assert(out@[i] == old_out[i]);
                            assert(old_out[i]@ == (upto_k + blk.take(j as int))[p]);
                            if p < upto_k.len() {
                                assert(next[p] == upto_k[p]);
                            } else {
                                assert((upto_k + blk.take(j as int))[p] == blk.take(j as int)[p
                                    - upto_k.len()]);
                                assert(next[p] == blk.take(j + 1)[p - upto_k.len()]);
                            }
                        } else {
                            assert(p == g);
                            assert(out@[i]@ == spec_block_entry(
                                self.bytes(),
                                bo as int,
                                limit as int,
                                j as int,
                            ));
                            assert(blk[j as int] == spec_block_entry(
                                self.bytes(),
                                bo as int,
                                limit as int,
                                j as int,
                            ));
                            assert(next[p] == blk.take(j + 1)[j as int]);
                        }
                    }
                }
                g = g + 1;
                j = j + 1;
            }
            proof {
                assert(blk.take(count as int) =~= blk);
                assert(self.dir_entries_upto(k as int + 1) == upto_k + blk);
                assert(self.dir_block_wf(k as int));
            }
            k = k + 1;
        }
        proof {
            assert(self.dir_wf());
            assert(self.dir_entries_upto(nblocks as int) == self.dir_entries());
        }
        Ok(out)
    }
}

/// True of the `.` and `..` entries, which enumeration by index hides.
pub open spec fn spec_is_dot(e: DirEntryView) -> bool {
    e.name == seq!['.' as u8] || e.name == seq!['.' as u8, '.' as u8]
}

/// The children of a directory: its entries with `.` and `..` hidden.
pub open spec fn spec_children(es: Seq<DirEntryView>) -> Seq<DirEntryView> {
    es.filter(|e: DirEntryView| !spec_is_dot(e))
}

/// Extending a prefix by one entry extends its children by that entry,
/// unless it is a dot entry.
pub proof fn lemma_children_take_step(es: Seq<DirEntryView>, i: int)
    requires
        0 <= i < es.len(),
    ensures
        spec_children(es.take(i + 1)) == if spec_is_dot(es[i]) {
            spec_children(es.take(i))
        } else {
            spec_children(es.take(i)).push(es[i])
        },
{
    reveal(Seq::filter);
    assert(es.take(i + 1).drop_last() =~= es.take(i));
    assert(es.take(i + 1).last() == es[i]);
}

/// The children of a prefix are a prefix of the children.
pub proof fn lemma_children_prefix(es: Seq<DirEntryView>, j: int)
    requires
        0 <= j <= es.len(),
    ensures
        spec_children(es.take(j)).len() <= spec_children(es).len(),
        forall|q: int|
            0 <= q < spec_children(es.take(j)).len() ==> #[trigger] spec_children(es)[q]
                == spec_children(es.take(j))[q],
    decreases es.len() - j,
{
    if j == es.len() {
        assert(es.take(j) =~= es);
    } else {
        lemma_children_prefix(es, j + 1);
        lemma_children_take_step(es, j);
    }
}

impl OndiskInodeWrapper {
    /// The child of this directory at linear index `idx`, `.` and `..` not
    /// counted.
    ///
    /// On a well-formed directory the call succeeds exactly when `idx` is
    /// below the number of children, and returns the `idx`-th entry of the
    /// walk with the dot entries dropped.
    #[verifier::loop_isolation(false)]
    pub fn get_child_by_index(&self, idx: u32) -> (r: RafsResult<ChildEntry>)
        requires
            self.wf(),
        ensures
            self.disk.mode & S_IFMT != S_IFDIR ==> r == Err::<ChildEntry, _>(
                RafsError::NotDirectory,
            ),
            r matches Ok(e) ==> idx < spec_children(self.dir_entries()).len() && e@
                == spec_children(self.dir_entries())[idx as int],
            self.disk.mode & S_IFMT == S_IFDIR && self.dir_wf() ==> (r is Ok <==> idx
                < spec_children(self.dir_entries()).len()),
            self.disk.mode & S_IFMT == S_IFDIR && self.dir_wf() && idx >= spec_children(
                self.dir_entries(),
            ).len() ==> r == Err::<ChildEntry, _>(RafsError::NotFound),
    {
        if !self.is_dir() {
            return Err(RafsError::NotDirectory);
        }
        let entries = self.walk_children_inodes(0)?;
        let ghost es = self.dir_entries();
        let mut dot: Vec<u8> = Vec::new();
        dot.push('.' as u8);
        let mut dotdot: Vec<u8> = Vec::new();
        dotdot.push('.' as u8);
        dotdot.push('.' as u8);
        proof {
            assert(dot@ =~= seq!['.' as u8]);
            assert(dotdot@ =~= seq!['.' as u8, '.' as u8]);
        }
        let n = entries.len();
        let mut i: usize = 0;
        let mut cur: u32 = 0;
        while i < n
            invariant
                n == es.len(),
                i <= n,
                entries@.len() == es.len(),
                forall|q: int| 0 <= q < n ==> (#[trigger] entries@[q])@ == es[q],
                cur == spec_children(es.take(i as int)).len(),
                idx >= cur,
                dot@ == seq!['.' as u8],
                dotdot@ == seq!['.' as u8, '.' as u8],
            decreases n - i,
        {
            let is_dot = matches!(
                crate::names::compare_names(entries[i].name.as_slice(), dot.as_slice()),
                crate::names::NameOrder::Equal
            ) || matches!(
                crate::names::compare_names(entries[i].name.as_slice(), dotdot.as_slice()),
                crate::names::NameOrder::Equal
            );
            proof {
                lemma_children_take_step(es, i as int);
                assert(is_dot == spec_is_dot(es[i as int]));
            }
            if !is_dot {
                if cur == idx {
                    let e = ChildEntry {
                        nid: entries[i].nid,
                        name: crate::names::copy_cstr_full(entries[i].name.as_slice()),
                        file_type: entries[i].file_type,
                        next_offset: entries[i].next_offset,
                    };
                    proof {
                        lemma_children_prefix(es, i as int + 1);
                        assert(spec_children(es.take(i as int + 1))[idx as int] == es[i as int]);
                        assert(e@ == es[i as int]);
                    }
                    return Ok(e);
                }
                cur = cur + 1;
            }
            i = i + 1;
        }
        proof {
            assert(es.take(n as int) =~= es);
        }
        Err(RafsError::NotFound)
    }

    /// Number of content chunks of a regular file; same rule as the child
    /// count of non-directories.
    pub fn get_chunk_count(&self) -> (r: RafsResult<u32>)
        requires
            self.wf(),
            self.disk.mode & S_IFMT == S_IFDIR || self.meta().chunk_size > 0,
        ensures
            self.disk.mode & S_IFMT != S_IFDIR ==> {
                let chunks = spec_div_ceil(self.disk.size as int, self.meta().chunk_size as int);
                &&& (r is Ok <==> chunks <= u32::MAX)
                &&& (r matches Ok(c) ==> c == chunks)
            },
    {
        self.get_child_count()
    }

    /// Linear index of this inode among its siblings; this format does not
    /// store one.
    pub fn get_child_index(&self) -> (r: RafsResult<u32>)
        ensures
            r == Ok::<u32, RafsError>(0),
    {
        Ok(0)
    }

    /// Validation of this inode's record layout before use, per its kind.
    pub open spec fn spec_validate_ok(&self, max_inode: u64) -> bool {
        &&& self.spec_ino() <= max_inode
        &&& self.disk.nlink != 0
        &&& (self.name matches Some(n) ==> n@.len() <= 256)
        &&& (self.disk.mode & S_IFMT == S_IFREG ==> {
            &&& !self.meta().is_chunk_dict
            &&& range_in(
                self.bytes(),
                self.offset as int,
                crate::inode::spec_inode_xattr_size(self.disk) + spec_div_ceil(
                    self.disk.size as int,
                    self.meta().chunk_size as int,
                ) * (crate::layout::CHUNK_ADDR_SIZE as int),
            )
        })
        &&& (self.disk.mode & S_IFMT == S_IFDIR ==> {
            &&& self.dir_heads_wf()
            &&& 2 <= self.dir_entries().len() <= u32::MAX + 2
            &&& self.dir_entries().len() - 2 < max_inode
            &&& range_in(
                self.bytes(),
                self.offset as int,
                crate::layout::spec_inode_size(self.disk.format) + crate::inode::spec_xattr_size(
                    self.disk,
                ),
            )
        })
        &&& (self.disk.mode & S_IFMT == crate::inode::S_IFLNK ==> self.disk.size != 0)
    }

    /// Validate format and integrity of the inode before serving data
    /// from it.
    ///
    /// Checks the nid against `max_inode`, a non-zero link count and a sane
    /// cached name length; a regular file must carry its whole chunk-address
    /// array inside the mapping (chunk dictionaries carry none and are
    /// `Unsupported`), a directory must carry its record and countable
    /// entries with `.` and `..` present, and a symlink must have content.
    pub fn validate(&self, max_inode: u64, _chunk_size: u64) -> (r: RafsResult<()>)
        requires
            self.wf(),
            self.meta().chunk_size > 0,
        ensures
            r is Ok <==> self.spec_validate_ok(max_inode),
            self.spec_ino() <= max_inode && self.disk.nlink != 0 && (self.name matches Some(n)
                ==> n@.len() <= 256) && self.disk.mode & S_IFMT == S_IFREG
                && self.meta().is_chunk_dict ==> r == Err::<(), _>(RafsError::Unsupported),
    {
        let map_len = self.state.map.len();
        if self.ino() > max_inode || self.disk.nlink == 0 {
            return Err(RafsError::InvalidData);
        }
        match &self.name {
            Some(n) => {
                if n.len() > 256 {
                    return Err(RafsError::InvalidData);
                }
            },
            None => {},
        }
        if self.is_reg() {
            if self.state.meta.is_chunk_dict {
                return Err(RafsError::Unsupported);
            }
            let chunks = div_ceil_u64(self.disk.size, self.chunk_size() as u64);
            let arr = match chunks.checked_mul(crate::layout::CHUNK_ADDR_SIZE as u64) {
                Some(v) => v,
                None => {
                    return Err(RafsError::InvalidData);
                },
            };
            let ixs = self.inode_xattr_size() as u64;
            let total = match ixs.checked_add(arr) {
                Some(v) => v,
                None => {
                    return Err(RafsError::InvalidData);
                },
            };
            if total > usize::MAX as u64 {
                return Err(RafsError::InvalidData);
            }
            if self.state.map.validate_range(self.offset, total as usize).is_err() {
                return Err(RafsError::InvalidData);
            }
            Ok(())
        } else if self.is_dir() {
            let count = match self.get_child_count() {
                Ok(c) => c,
                Err(e) => {
                    return Err(e);
                },
            };
            if count as u64 >= max_inode {
                return Err(RafsError::InvalidData);
            }
            let size = self.inode_size() + self.xattr_size();
            if self.state.map.validate_range(self.offset, size).is_err() {
                return Err(RafsError::InvalidData);
            }
            Ok(())
        } else if self.is_symlink() && self.disk.size == 0 {
            Err(RafsError::InvalidData)
        } else {
            Ok(())
        }
    }
}

} // verus!
