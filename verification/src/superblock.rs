//! The superblock driver: loads and validates a bootstrap, publishes the
//! state tuple, and serves the top-level inode and chunk APIs.
//!
//! An update builds a complete new tuple — mapping, blob table, meta — and
//! publishes it in one step through the hot-swap cell; handles materialized
//! from an earlier snapshot keep reading their own tuple. The lazy chunk
//! index joins on-inode chunk addresses to sidecar chunk-table rows; it is
//! rebuilt after every publication.

use vstd::prelude::*;

use std::collections::HashMap;
use std::sync::Arc;

verus! {

broadcast use vstd::std_specs::hash::group_hash_axioms;

use vstd::map::*;

use crate::blob::{blob_table_at, BlobInfo, BlobTable, BLOB_ENTRY_SIZE};
use crate::inode::{spec_slot_offset, OndiskInodeWrapper};
use crate::inode::{S_IFDIR, S_IFMT, S_IFREG};
use crate::layout::{
    chunk_digest_at, chunk_info_at, inode_at, inode_record_in, read_chunk_addr, read_chunk_info,
    spec_div_ceil, ChunkAddr, ChunkInfoRow, CHUNK_ADDR_SIZE, CHUNK_FLAG_COMPRESSED,
    CHUNK_INFO_SIZE, EROFS_BLOCK_SIZE,
};
use crate::map::{range_in, MapState};
use crate::meta::RafsSuperMeta;
use crate::state::{cell_state, DirectMappingState, StateCell, StateView};
use crate::{RafsError, RafsResult};

/// Largest inode number the driver serves.
pub const RAFS_V6_MAX_INO: u64 = 0xff_ffff_ffff_fffe;

/// The key under which the chunk-table row at index `i` is indexed: its
/// synthesized on-inode chunk address.
pub open spec fn spec_row_key(b: Seq<u8>, table_off: int, i: int) -> u64 {
    let row = chunk_info_at(b, table_off + i * (CHUNK_INFO_SIZE as int));
    (ChunkAddr {
        blob_index: row.blob_index as u16,
        blob_ci_index: row.index as u16,
        block_addr: (row.uncompressed_offset as int / (EROFS_BLOCK_SIZE as int)) as u32,
    }).spec_key()
}

/// A handle value that reads nid `n` of state `sv`: its snapshot, slot
/// offset and decoded record are those of `n`. The directory model of such
/// a handle depends on these fields alone.
pub open spec fn spec_handle_of(w: OndiskInodeWrapper, sv: StateView, n: u64) -> bool {
    &&& w.state@ == sv
    &&& w.offset as int == spec_slot_offset(sv.meta, n)
    &&& w.disk == inode_at(sv.bytes, spec_slot_offset(sv.meta, n))
}

/// The inode record of nid `n` is a directory contained in the mapping.
pub open spec fn spec_is_dir_nid(sv: StateView, n: u64) -> bool {
    &&& inode_record_in(sv.bytes, spec_slot_offset(sv.meta, n))
    &&& inode_at(sv.bytes, spec_slot_offset(sv.meta, n)).mode & S_IFMT == S_IFDIR
}

/// What the parent side of extended-handle construction needs of `p`: a
/// mapped directory whose well-formed entry list mentions nid `n`.
pub open spec fn spec_parent_ready(sv: StateView, n: u64, p: u64) -> bool {
    &&& spec_is_dir_nid(sv, p)
    &&& forall|w: OndiskInodeWrapper|
        #[trigger] spec_handle_of(w, sv, p) ==> (w.dir_wf() && exists|q: int|
            0 <= q < w.dir_entries().len() && (#[trigger] w.dir_entries()[q]).nid == n)
}

/// What extended-handle construction needs of a directory nid `n`: a mapped
/// directory record whose entry list is well-formed, sorted and holds `..`,
/// and whose `..` target is ready as a parent.
pub open spec fn spec_extended_ready(sv: StateView, n: u64) -> bool {
    &&& spec_is_dir_nid(sv, n)
    &&& forall|w: OndiskInodeWrapper|
        #[trigger] spec_handle_of(w, sv, n) ==> {
            &&& w.dir_wf()
            &&& crate::lookup::dir_sorted(w.dir_entries())
            &&& exists|q: int|
                0 <= q < w.dir_entries().len() && (#[trigger] w.dir_entries()[q]).name == seq![
                    '.' as u8,
                    '.' as u8,
                ]
            &&& forall|q: int|
                0 <= q < w.dir_entries().len() && (#[trigger] w.dir_entries()[q]).name == seq![
                    '.' as u8,
                    '.' as u8,
                ] ==> spec_parent_ready(sv, n, w.dir_entries()[q].nid)
        }
}

/// Direct-mapped RAFS v6 super block.
pub struct DirectSuperBlockV6 {
    /// Cached superblock metadata, fixed at construction.
    pub info: RafsSuperMeta,
    /// The hot-swap cell publishing the current state tuple.
    pub state: StateCell,
    /// The lazy chunk index: on-inode chunk address key to chunk-table row.
    pub chunk_map: Option<HashMap<u64, usize>>,
}

impl DirectSuperBlockV6 {
    /// The state view the superblock currently publishes.
    pub open spec fn spec_state(&self) -> StateView {
        cell_state(self.state)
    }

    /// Create a driver for a bootstrap with the given metadata; no mapping
    /// is published until `load`.
    pub fn new(meta: &RafsSuperMeta) -> (s: Self)
        ensures
            s.info == *meta,
            s.spec_state().meta == *meta,
            s.spec_state().bytes == Seq::<u8>::empty(),
            s.spec_state().blobs.len() == 0,
            s.chunk_map is None,
    {
        let state = DirectMappingState::new(meta);
        DirectSuperBlockV6 {
            info: *meta,
            state: StateCell::new(Arc::new(state)),
            chunk_map: None,
        }
    }

    /// Validate a fresh bootstrap image and publish it as the new state.
    ///
    /// The blob table range must lie inside `[4096, len - 4096)`, the chunk
    /// size must be non-zero, and the blob table must parse; then the new
    /// tuple — these bytes, that table, the cached meta — is published in
    /// one step and the lazy chunk index is dropped for rebuild. Handles
    /// materialized from the prior state keep reading the prior mapping.
    pub fn update_state(&mut self, bytes: Vec<u8>) -> (r: RafsResult<()>)
        ensures
            r is Ok <==> {
                &&& old(self).info.chunk_size > 0
                &&& bytes@.len() >= 8192
                &&& 4096 <= old(self).info.blob_table_offset
                &&& old(self).info.blob_table_offset + old(self).info.blob_table_size <= bytes@.len()
                    - 4096
                &&& old(self).info.blob_table_offset + old(self).info.blob_table_size <= usize::MAX
                &&& old(self).info.blob_table_size % (BLOB_ENTRY_SIZE as u32) == 0
            },
            r is Ok ==> {
                &&& final(self).info == old(self).info
                &&& final(self).chunk_map is None
                &&& final(self).spec_state().meta == old(self).info
                &&& final(self).spec_state().bytes == bytes@
                &&& final(self).spec_state().blobs == blob_table_at(
                    bytes@,
                    old(self).info.blob_table_offset as int,
                    old(self).info.blob_table_size as int / (BLOB_ENTRY_SIZE as int),
                )
            },
            r is Err ==> *final(self) == *old(self),
    {
        let map = MapState::new(bytes);
        let len = map.len();
        if self.info.chunk_size == 0 {
            return Err(RafsError::InvalidData);
        }
        if len < 8192 {
            return Err(RafsError::InvalidData);
        }
        let table_off = self.info.blob_table_offset;
        let table_size = self.info.blob_table_size;
        if table_off < 4096 || table_off > (len as u64) - 4096 || table_size as u64 > (len as u64)
            - 4096 - table_off {
            return Err(RafsError::InvalidData);
        }
        if table_size % (BLOB_ENTRY_SIZE as u32) != 0 {
            return Err(RafsError::InvalidData);
        }
        let blob_table = match BlobTable::load(&map, table_off as usize, table_size as usize) {
            Ok(t) => t,
            Err(e) => {
                proof {
                    assert(range_in(map@, table_off as int, table_size as int));
                }
                return Err(e);
            },
        };
        let state = DirectMappingState { meta: self.info, blob_table, map };
        self.state.publish(Arc::new(state));
        self.chunk_map = None;
        Ok(())
    }

    /// Load the initial bootstrap image; same validation and publication
    /// as `update_state`.
    pub fn load(&mut self, bytes: Vec<u8>) -> (r: RafsResult<()>)
        ensures
            r is Ok <==> {
                &&& old(self).info.chunk_size > 0
                &&& bytes@.len() >= 8192
                &&& 4096 <= old(self).info.blob_table_offset
                &&& old(self).info.blob_table_offset + old(self).info.blob_table_size <= bytes@.len()
                    - 4096
                &&& old(self).info.blob_table_offset + old(self).info.blob_table_size <= usize::MAX
                &&& old(self).info.blob_table_size % (BLOB_ENTRY_SIZE as u32) == 0
            },
            r is Ok ==> {
                &&& final(self).info == old(self).info
                &&& final(self).chunk_map is None
                &&& final(self).spec_state().meta == old(self).info
                &&& final(self).spec_state().bytes == bytes@
                &&& final(self).spec_state().blobs == blob_table_at(
                    bytes@,
                    old(self).info.blob_table_offset as int,
                    old(self).info.blob_table_size as int / (BLOB_ENTRY_SIZE as int),
                )
            },
            r is Err ==> *final(self) == *old(self),
    {
        self.update_state(bytes)
    }

    /// Reload a new bootstrap image: the hot-swap path. Same validation and
    /// publication as `update_state`; prior snapshots keep their tuple.
    pub fn update(&mut self, bytes: Vec<u8>) -> (r: RafsResult<()>)
        ensures
            r is Ok <==> {
                &&& old(self).info.chunk_size > 0
                &&& bytes@.len() >= 8192
                &&& 4096 <= old(self).info.blob_table_offset
                &&& old(self).info.blob_table_offset + old(self).info.blob_table_size <= bytes@.len()
                    - 4096
                &&& old(self).info.blob_table_offset + old(self).info.blob_table_size <= usize::MAX
                &&& old(self).info.blob_table_size % (BLOB_ENTRY_SIZE as u32) == 0
            },
            r is Ok ==> {
                &&& final(self).info == old(self).info
                &&& final(self).chunk_map is None
                &&& final(self).spec_state().meta == old(self).info
                &&& final(self).spec_state().bytes == bytes@
                &&& final(self).spec_state().blobs == blob_table_at(
                    bytes@,
                    old(self).info.blob_table_offset as int,
                    old(self).info.blob_table_size as int / (BLOB_ENTRY_SIZE as int),
                )
            },
            r is Err ==> *final(self) == *old(self),
    {
        self.update_state(bytes)
    }

    /// Drop the published mapping, reverting to an empty state.
    pub fn destroy(&mut self)
        ensures
            final(self).spec_state().bytes == Seq::<u8>::empty(),
            final(self).spec_state().blobs.len() == 0,
            final(self).chunk_map is None,
            final(self).info == old(self).info,
    {
        let meta = RafsSuperMeta::default();
        let state = DirectMappingState::new(&meta);
        self.state.publish(Arc::new(state));
        self.chunk_map = None;
    }

    /// The maximum inode number the driver serves.
    pub fn get_max_ino(&self) -> (r: u64)
        ensures
            r == RAFS_V6_MAX_INO,
    {
        RAFS_V6_MAX_INO
    }

    /// The nid of the filesystem root.
    pub fn root_ino(&self) -> (r: u64)
        ensures
            r == self.info.root_nid as u64,
    {
        self.info.root_nid as u64
    }

    /// Materialize a handle for nid `nid` against the current snapshot.
    pub fn get_inode(&self, nid: u64, _validate_inode: bool) -> (r: RafsResult<
        OndiskInodeWrapper,
    >)
        ensures
            r is Ok <==> crate::layout::inode_record_in(
                self.spec_state().bytes,
                spec_slot_offset(self.spec_state().meta, nid),
            ),
            r matches Ok(w) ==> {
                &&& w.wf()
                &&& w.state@ == self.spec_state()
                &&& w.spec_ino() == nid
                &&& w.parent_inode is None
                &&& w.name is None
            },
    {
        let state = self.state.snapshot();
        OndiskInodeWrapper::new(state, nid)
    }

    /// Materialize a handle with its parent nid and name filled in.
    ///
    /// The root is its own parent and is named `/`, and resolves whenever
    /// its record is mapped; any other nid must be a directory — its parent
    /// is the nid of its `..` entry and its name is the one under which
    /// that parent lists the nid. Construction is owed success whenever the
    /// directory and its parent are mapped, well-formed, sorted and linked
    /// both ways; a non-root non-directory is `NotFound`.
    pub fn get_extended_inode(&self, nid: u64, validate_inode: bool) -> (r: RafsResult<
        OndiskInodeWrapper,
    >)
        ensures
            r matches Ok(w) ==> {
                &&& w.wf()
                &&& w.state@ == self.spec_state()
                &&& w.spec_ino() == nid
                &&& w.parent_inode is Some
                &&& w.name is Some
            },
            nid == self.info.root_nid as u64 ==> (r matches Ok(w) ==> w.parent_inode == Some(nid)
                && (w.name matches Some(n) && n@ == seq!['/' as u8])),
            nid == self.info.root_nid as u64 && inode_record_in(
                self.spec_state().bytes,
                spec_slot_offset(self.spec_state().meta, nid),
            ) ==> r is Ok,
            nid != self.info.root_nid as u64 && inode_record_in(
                self.spec_state().bytes,
                spec_slot_offset(self.spec_state().meta, nid),
            ) && !spec_is_dir_nid(self.spec_state(), nid) ==> r == Err::<OndiskInodeWrapper, _>(
                RafsError::NotFound,
            ),
            nid != self.info.root_nid as u64 && spec_extended_ready(self.spec_state(), nid) ==> r
                is Ok,
            nid != self.info.root_nid as u64 ==> (r matches Ok(w) ==> exists|q: int|
                0 <= q < w.dir_entries().len() && (#[trigger] w.dir_entries()[q]).name == seq![
                    '.' as u8,
                    '.' as u8,
                ] && w.dir_entries()[q].nid == w.parent_inode->Some_0),
            nid != self.info.root_nid as u64 ==> (r matches Ok(w) ==> exists|
                ph: OndiskInodeWrapper,
                p: int,
            |
                spec_handle_of(ph, self.spec_state(), w.parent_inode->Some_0) && 0 <= p
                    < ph.dir_entries().len() && (#[trigger] ph.dir_entries()[p]).nid == nid
                    && ph.dir_entries()[p].name == w.name->Some_0@),
    {
        let ghost sv = self.spec_state();
        let mut inode = self.get_inode(nid, validate_inode)?;
        if nid == self.info.root_nid as u64 {
            let mut name: Vec<u8> = Vec::new();
            name.push('/' as u8);
            proof {
                assert(name@ =~= seq!['/' as u8]);
            }
            inode.set_parent(nid);
            inode.set_name(name);
            return Ok(inode);
        }
        if !inode.is_dir() {
            return Err(RafsError::NotFound);
        }
        let mut dotdot: Vec<u8> = Vec::new();
        dotdot.push('.' as u8);
        dotdot.push('.' as u8);
        proof {
            assert(dotdot@ =~= seq!['.' as u8, '.' as u8]);
            assert(spec_handle_of(inode, sv, nid));
        }
        let parent = match inode.get_child_by_name(dotdot.as_slice()) {
            Ok(p) => p,
            Err(e) => {
                proof {
                    if spec_extended_ready(sv, nid) {
                        assert(spec_handle_of(inode, sv, nid));
                        assert(false);
                    }
                }
                return Err(e);
            },
        };
        let parent_nid = parent.nid;
        proof {
            if spec_extended_ready(sv, nid) {
                let p0 = choose|p: int|
                    0 <= p < inode.dir_entries().len() && #[trigger] inode.dir_entries()[p]
                        == parent@;
                assert(inode.dir_entries()[p0].name == seq!['.' as u8, '.' as u8]);
                assert(spec_parent_ready(sv, nid, parent_nid));
            }
        }
        let parent_inode = match OndiskInodeWrapper::new(self.state.snapshot(), parent_nid) {
            Ok(w) => w,
            Err(e) => {
                proof {
                    if spec_extended_ready(sv, nid) {
                        assert(spec_parent_ready(sv, nid, parent_nid));
                        assert(false);
                    }
                }
                return Err(e);
            },
        };
        proof {
            assert(spec_handle_of(parent_inode, sv, parent_nid));
        }
        let entries = match parent_inode.walk_children_inodes(0) {
            Ok(v) => v,
            Err(e) => {
                proof {
                    if spec_extended_ready(sv, nid) {
                        assert(spec_parent_ready(sv, nid, parent_nid));
                        assert(spec_handle_of(parent_inode, sv, parent_nid));
                        assert(false);
                    }
                }
                return Err(e);
            },
        };
        let mut i: usize = 0;
        let n = entries.len();
        while i < n
            invariant
                n == entries@.len(),
                i <= n,
                inode.wf(),
                inode.state@ == sv,
                sv == self.spec_state(),
                inode.spec_ino() == nid,
                inode.parent_inode is None,
                inode.name is None,
                nid != self.info.root_nid as u64,
                inode.disk.mode & S_IFMT == S_IFDIR,
                spec_handle_of(parent_inode, sv, parent_nid),
                parent_inode.wf(),
                entries@.len() == parent_inode.dir_entries().len(),
                forall|j: int|
                    0 <= j < n ==> (#[trigger] entries@[j])@ == parent_inode.dir_entries()[j],
                forall|j: int| 0 <= j < i ==> (#[trigger] entries@[j]).nid != nid,
                exists|q: int|
                    0 <= q < inode.dir_entries().len() && (#[trigger] inode.dir_entries()[q]).name
                        == seq!['.' as u8, '.' as u8] && inode.dir_entries()[q].nid == parent_nid,
            decreases n - i,
        {
            if entries[i].nid == nid {
                let name = crate::names::copy_cstr_full(entries[i].name.as_slice());
                let ghost pre = inode;
                inode.set_parent(parent_nid);
                inode.set_name(name);
                proof {
                    pre.lemma_dir_entries_same(&inode);
                    assert(parent_inode.dir_entries()[i as int].nid == nid);
                    assert(parent_inode.dir_entries()[i as int].name == name@);
                }
                return Ok(inode);
            }
            i = i + 1;
        }
        proof {
            if spec_extended_ready(sv, nid) {
                assert(spec_parent_ready(sv, nid, parent_nid));
                assert(spec_handle_of(parent_inode, sv, parent_nid));
                let q = choose|q: int|
                    0 <= q < parent_inode.dir_entries().len() && (
                    #[trigger] parent_inode.dir_entries()[q]).nid == nid;
                assert(entries@[q]@ == parent_inode.dir_entries()[q]);
                assert(entries@[q].nid == nid);
                assert(false);
            }
        }
        Err(RafsError::NotFound)
    }

    /// Owned copies of all blob descriptors of the current state.
    pub fn get_blob_infos(&self) -> (r: Vec<BlobInfo>)
        ensures
            r@.len() == self.spec_state().blobs.len(),
            forall|i: int| 0 <= i < r@.len() ==> r@[i]@ == self.spec_state().blobs[i],
    {
        let state = self.state.snapshot();
        state.blob_table.get_all()
    }

    /// The chunk-info object of sidecar row `idx` of the current state.
    ///
    /// Succeeds exactly when the row lies inside the chunk table and is
    /// contained in the mapping.
    pub fn get_chunk_info(&self, idx: usize) -> (r: RafsResult<DirectChunkInfoV6>)
        ensures
            r is Ok <==> (idx * (CHUNK_INFO_SIZE as int) + (CHUNK_INFO_SIZE as int)
                <= self.spec_state().meta.chunk_table_size && range_in(
                self.spec_state().bytes,
                self.spec_state().meta.chunk_table_offset + idx * (CHUNK_INFO_SIZE as int),
                CHUNK_INFO_SIZE as int,
            )),
            r matches Ok(c) ==> c.wf() && c.state@ == self.spec_state() && c.offset
                == self.spec_state().meta.chunk_table_offset + idx * (CHUNK_INFO_SIZE as int),
    {
        let state = self.state.snapshot();
        DirectChunkInfoV6::new(state, idx)
    }
}


/// The chunk-table row at index `i` can be keyed: its blob index and chunk
/// index fit the on-inode address encoding and its uncompressed offset lies
/// in 32-bit block range.
pub open spec fn spec_row_keyable(b: Seq<u8>, table_off: int, i: int) -> bool {
    let row = chunk_info_at(b, table_off + i * (CHUNK_INFO_SIZE as int));
    row.blob_index <= u16::MAX && row.index <= u16::MAX && row.uncompressed_offset as int / (
    EROFS_BLOCK_SIZE as int) <= u32::MAX
}

/// The chunk table of a state can be indexed: it is empty, or a whole
/// number of rows contained in the mapping, each keyable within the
/// on-inode address encoding.
pub open spec fn spec_chunk_table_buildable(s: StateView) -> bool {
    let tsize = s.meta.chunk_table_size as int;
    let toff = s.meta.chunk_table_offset as int;
    tsize == 0 || {
        &&& tsize % (CHUNK_INFO_SIZE as int) == 0
        &&& range_in(s.bytes, toff, tsize)
        &&& forall|i: int|
            0 <= i < tsize / (CHUNK_INFO_SIZE as int) ==> #[trigger] spec_row_keyable(
                s.bytes,
                toff,
                i,
            )
    }
}

/// Some chunk-table row of the state carries key `k`.
pub open spec fn spec_key_present(s: StateView, k: u64) -> bool {
    exists|i: int|
        0 <= i < s.meta.chunk_table_size as int / (CHUNK_INFO_SIZE as int)
            && #[trigger] spec_row_key(s.bytes, s.meta.chunk_table_offset as int, i) == k
}

/// The lazy chunk index matches a state: the table is buildable, every row
/// is indexed under its synthesized address key, and every indexed entry
/// points back to the last row carrying its key. This pins the index: it is
/// a function of the state alone.
pub open spec fn spec_chunk_map_ok(m: Map<u64, usize>, s: StateView) -> bool {
    let n = s.meta.chunk_table_size as int / (CHUNK_INFO_SIZE as int);
    let toff = s.meta.chunk_table_offset as int;
    &&& spec_chunk_table_buildable(s)
    &&& forall|i: int| 0 <= i < n ==> #[trigger] m.contains_key(spec_row_key(s.bytes, toff, i))
    &&& forall|k: u64|
        #[trigger] m.contains_key(k) ==> (m[k] < n && spec_row_key(s.bytes, toff, m[k] as int)
            == k && forall|j: int|
            m[k] < j < n ==> #[trigger] spec_row_key(s.bytes, toff, j) != k)
}

/// An index matching a state holds exactly the keys some row of the state's
/// table carries.
pub proof fn lemma_map_key_present(m: Map<u64, usize>, s: StateView, k: u64)
    requires
        spec_chunk_map_ok(m, s),
    ensures
        m.contains_key(k) <==> spec_key_present(s, k),
{
    let toff = s.meta.chunk_table_offset as int;
    if m.contains_key(k) {
        assert(spec_row_key(s.bytes, toff, m[k] as int) == k);
    }
    if spec_key_present(s, k) {
        let i = choose|i: int|
            0 <= i < s.meta.chunk_table_size as int / (CHUNK_INFO_SIZE as int)
                && #[trigger] spec_row_key(s.bytes, toff, i) == k;
        assert(m.contains_key(spec_row_key(s.bytes, toff, i)));
    }
}

/// The pinned index is unique: any two indexes matching one state are
/// equal, so a rebuilt index and equal lookups against one published state
/// give equal results.
pub proof fn lemma_chunk_map_unique(m1: Map<u64, usize>, m2: Map<u64, usize>, s: StateView)
    requires
        spec_chunk_map_ok(m1, s),
        spec_chunk_map_ok(m2, s),
    ensures
        m1 == m2,
{
    let toff = s.meta.chunk_table_offset as int;
    assert_maps_equal!(m1, m2, k => {
        if m1.contains_key(k) {
            assert(m2.contains_key(spec_row_key(s.bytes, toff, m1[k] as int)));
        }
        if m2.contains_key(k) {
            assert(m1.contains_key(spec_row_key(s.bytes, toff, m2[k] as int)));
        }
        if m1.contains_key(k) && m2.contains_key(k) {
            if m1[k] < m2[k] {
                assert(spec_row_key(s.bytes, toff, m2[k] as int) == k);
                assert(false);
            }
            if m2[k] < m1[k] {
                assert(spec_row_key(s.bytes, toff, m1[k] as int) == k);
                assert(false);
            }
        }
    });
}

impl DirectSuperBlockV6 {
    /// The lazy chunk index, when built, indexes the published chunk table.
    pub open spec fn chunk_map_wf(&self) -> bool {
        match self.chunk_map {
            None => true,
            Some(m) => spec_chunk_map_ok(m@, self.spec_state()),
        }
    }

    /// Build the lazy chunk index by scanning the chunk table of the
    /// current state once.
    ///
    /// Succeeds exactly when the table is buildable: empty, or a whole
    /// number of mapped rows whose indices fit the on-inode address
    /// encoding.
    fn load_chunk_map(&self) -> (r: RafsResult<HashMap<u64, usize>>)
        ensures
            r is Ok <==> spec_chunk_table_buildable(self.spec_state()),
            r matches Ok(m) ==> spec_chunk_map_ok(m@, self.spec_state()),
    {
        let state = self.state.snapshot();
        let map_len = state.map.len();
        let mut chunk_map: HashMap<u64, usize> = HashMap::new();
        let tsize = state.meta.chunk_table_size;
        let toff = state.meta.chunk_table_offset;
        let ghost sv = self.spec_state();
        if tsize == 0 {
            proof {
                assert(spec_chunk_map_ok(chunk_map@, sv)) by {
                    assert(spec_chunk_table_buildable(sv));
                }
            }
            return Ok(chunk_map);
        }
        if tsize % (CHUNK_INFO_SIZE as u64) != 0 {
            return Err(RafsError::InvalidData);
        }
        if toff > usize::MAX as u64 || tsize > usize::MAX as u64 || toff > usize::MAX as u64
            - tsize {
            return Err(RafsError::InvalidData);
        }
        if state.map.validate_range(toff as usize, tsize as usize).is_err() {
            return Err(RafsError::InvalidData);
        }
        let n = (tsize / (CHUNK_INFO_SIZE as u64)) as usize;
        let mut idx: usize = 0;
        let mut row_off: usize = toff as usize;
        while idx < n
            invariant
                sv == self.spec_state(),
                state@ == sv,
                n == sv.meta.chunk_table_size as int / (CHUNK_INFO_SIZE as int),
                idx <= n,
                row_off == sv.meta.chunk_table_offset + idx * (CHUNK_INFO_SIZE as int),
                sv.meta.chunk_table_offset + (n as int) * (CHUNK_INFO_SIZE as int)
                    <= sv.bytes.len(),
                sv.bytes.len() <= usize::MAX,
                forall|i: int|
                    0 <= i < idx ==> #[trigger] chunk_map@.contains_key(
                        spec_row_key(sv.bytes, sv.meta.chunk_table_offset as int, i),
                    ),
                forall|i: int|
                    0 <= i < idx ==> #[trigger] spec_row_keyable(
                        sv.bytes,
                        sv.meta.chunk_table_offset as int,
                        i,
                    ),
                forall|k: u64|
                    #[trigger] chunk_map@.contains_key(k) ==> (chunk_map@[k] < idx
                        && spec_row_key(
                        sv.bytes,
                        sv.meta.chunk_table_offset as int,
                        chunk_map@[k] as int,
                    ) == k && forall|j: int|
                        chunk_map@[k] < j < idx ==> #[trigger] spec_row_key(
                            sv.bytes,
                            sv.meta.chunk_table_offset as int,
                            j,
                        ) != k),
            decreases n - idx,
        {
            proof {
                assert((idx as int) * (CHUNK_INFO_SIZE as int) + (CHUNK_INFO_SIZE as int) <= (
                n as int) * (CHUNK_INFO_SIZE as int)) by (nonlinear_arith)
                    requires
                        idx < n,
                ;
            }
            let row = match read_chunk_info(&state.map, row_off) {
                Ok(x) => x,
                Err(_) => vstd::pervasive::unreached(),
            };
            if row.blob_index > u16::MAX as u32 || row.index > u16::MAX as u32 {
                proof {
                    assert(!spec_row_keyable(sv.bytes, sv.meta.chunk_table_offset as int,
                        idx as int));
                }
                return Err(RafsError::InvalidData);
            }
            let blk = row.uncompressed_offset / (EROFS_BLOCK_SIZE as u64);
            if blk > u32::MAX as u64 {
                proof {
                    assert(!spec_row_keyable(sv.bytes, sv.meta.chunk_table_offset as int,
                        idx as int));
                }
                return Err(RafsError::InvalidData);
            }
            let addr = ChunkAddr {
                blob_index: row.blob_index as u16,
                blob_ci_index: row.index as u16,
                block_addr: blk as u32,
            };
            let key = addr.key();
            proof {
                assert(key == spec_row_key(sv.bytes, sv.meta.chunk_table_offset as int,
                    idx as int));
            }
            chunk_map.insert(key, idx);
            idx = idx + 1;
            row_off = row_off + CHUNK_INFO_SIZE;
            proof {
                assert((idx as int) * (CHUNK_INFO_SIZE as int) == ((idx as int) - 1) * (
                CHUNK_INFO_SIZE as int) + (CHUNK_INFO_SIZE as int)) by (nonlinear_arith);
            }
        }
        proof {
            assert(spec_chunk_table_buildable(sv));
        }
        Ok(chunk_map)
    }

    /// Make sure the lazy chunk index is built for the current state.
    pub fn ensure_chunk_map(&mut self) -> (r: RafsResult<()>)
        requires
            old(self).chunk_map_wf(),
        ensures
            final(self).info == old(self).info,
            final(self).state == old(self).state,
            final(self).chunk_map_wf(),
            r is Ok <==> (old(self).chunk_map is Some || spec_chunk_table_buildable(
                old(self).spec_state(),
            )),
            old(self).chunk_map is Some ==> *final(self) == *old(self),
            r is Ok ==> final(self).chunk_map is Some,
            r is Err ==> *final(self) == *old(self),
    {
        if self.chunk_map.is_none() {
            let m = match self.load_chunk_map() {
                Ok(m) => m,
                Err(e) => {
                    return Err(e);
                },
            };
            self.chunk_map = Some(m);
        }
        Ok(())
    }

    /// True when a join lookup for chunk `idx` of `inode` is well-posed
    /// against this superblock: the inode is a regular file, the index is
    /// among its countable chunks, its address record is mapped, and the
    /// lazy index is built or buildable.
    pub open spec fn spec_join_ready(&self, inode: OndiskInodeWrapper, idx: u32) -> bool {
        let chunks = spec_div_ceil(inode.disk.size as int, inode.meta().chunk_size as int);
        &&& inode.disk.mode & S_IFMT == S_IFREG
        &&& chunks <= u32::MAX
        &&& idx < chunks
        &&& range_in(
            inode.bytes(),
            inode.spec_chunk_base() + idx * (CHUNK_ADDR_SIZE as int),
            CHUNK_ADDR_SIZE as int,
        )
        &&& (self.chunk_map is Some || spec_chunk_table_buildable(self.spec_state()))
    }

    /// The chunk-info object of chunk `idx` of a regular file, joined
    /// through the lazy chunk index.
    ///
    /// The returned row's synthesized address key equals the on-inode chunk
    /// address at `idx` of the handle's snapshot — the join the sidecar
    /// table exists for. The index is built on first use. A non-regular
    /// inode, an index at or past the chunk count, and an address no row
    /// carries are all `NotFound`; on a well-posed join the call succeeds
    /// exactly when some row carries the address.
    pub fn get_inode_chunk_info(&mut self, inode: &OndiskInodeWrapper, idx: u32) -> (r:
        RafsResult<DirectChunkInfoV6>)
        requires
            inode.wf(),
            inode.meta().chunk_size > 0,
            old(self).chunk_map_wf(),
        ensures
            final(self).info == old(self).info,
            final(self).state == old(self).state,
            final(self).chunk_map_wf(),
            inode.disk.mode & S_IFMT != S_IFREG ==> r == Err::<DirectChunkInfoV6, _>(
                RafsError::NotFound,
            ),
            inode.disk.mode & S_IFMT == S_IFREG && spec_div_ceil(
                inode.disk.size as int,
                inode.meta().chunk_size as int,
            ) <= u32::MAX && idx >= spec_div_ceil(
                inode.disk.size as int,
                inode.meta().chunk_size as int,
            ) ==> r == Err::<DirectChunkInfoV6, _>(RafsError::NotFound),
            old(self).spec_join_ready(*inode, idx) ==> (r is Ok <==> spec_key_present(
                old(self).spec_state(),
                inode.spec_chunk_addr(idx as int).spec_key(),
            )),
            old(self).spec_join_ready(*inode, idx) && !spec_key_present(
                old(self).spec_state(),
                inode.spec_chunk_addr(idx as int).spec_key(),
            ) ==> r == Err::<DirectChunkInfoV6, _>(RafsError::NotFound),
            r matches Ok(c) ==> {
                &&& c.wf()
                &&& c.state@ == old(self).spec_state()
                &&& (ChunkAddr {
                    blob_index: c.row.blob_index as u16,
                    blob_ci_index: c.row.index as u16,
                    block_addr: (c.row.uncompressed_offset as int / (
                    EROFS_BLOCK_SIZE as int)) as u32,
                }).spec_key() == inode.spec_chunk_addr(idx as int).spec_key()
            },
    {
        let inode_map_len = inode.state.map.len();
        let ghost sv = self.spec_state();
        if !inode.is_reg() {
            return Err(RafsError::NotFound);
        }
        let count = match inode.get_child_count() {
            Ok(c) => c,
            Err(e) => {
                return Err(e);
            },
        };
        if idx >= count {
            return Err(RafsError::NotFound);
        }
        let aoff = match inode.chunk_array_offset(idx as u64) {
            Ok(o) => o,
            Err(e) => {
                return Err(e);
            },
        };
        let addr = match read_chunk_addr(&inode.state.map, aoff) {
            Ok(a) => a,
            Err(_) => {
                return Err(RafsError::InvalidData);
            },
        };
        proof {
            assert(addr == inode.spec_chunk_addr(idx as int));
        }
        self.ensure_chunk_map()?;
        let key = addr.key();
        let row_idx: usize = match &self.chunk_map {
            Some(m) => {
                proof {
                    lemma_map_key_present(m@, sv, key);
                }
                match m.get(&key) {
                    Some(v) => *v,
                    None => {
                        return Err(RafsError::NotFound);
                    },
                }
            },
            None => vstd::pervasive::unreached(),
        };
        let ghost m = self.chunk_map->Some_0@;
        proof {
            let toff = sv.meta.chunk_table_offset as int;
            let tsize = sv.meta.chunk_table_size as int;
            let n = tsize / (CHUNK_INFO_SIZE as int);
            assert(m.contains_key(key) && m[key] == row_idx);
            assert(row_idx < n && spec_row_key(sv.bytes, toff, row_idx as int) == key);
            assert(spec_chunk_table_buildable(sv));
            assert(tsize != 0);
            assert((row_idx as int) * (CHUNK_INFO_SIZE as int) + (CHUNK_INFO_SIZE as int) <= n * (
            CHUNK_INFO_SIZE as int)) by (nonlinear_arith)
                requires
                    (row_idx as int) < n,
            ;
            assert(n * (CHUNK_INFO_SIZE as int) == tsize) by (nonlinear_arith)
                requires
                    n == tsize / (CHUNK_INFO_SIZE as int),
                    tsize % (CHUNK_INFO_SIZE as int) == 0,
                    tsize >= 0,
            ;
        }
        let state = self.state.snapshot();
        let c = match DirectChunkInfoV6::new(state, row_idx) {
            Ok(c) => c,
            Err(_) => {
                proof {
                    assert(false);
                }
                vstd::pervasive::unreached()
            },
        };
        proof {
            let toff = sv.meta.chunk_table_offset as int;
            assert(spec_row_key(sv.bytes, toff, row_idx as int) == addr.spec_key());
            assert(c.row == chunk_info_at(sv.bytes, toff + row_idx * (CHUNK_INFO_SIZE as int)));
        }
        Ok(c)
    }
}

/// RAFS v6 chunk information object: one sidecar chunk-table row, pinned to
/// the snapshot it was read from.
pub struct DirectChunkInfoV6 {
    /// The snapshot this row was read from.
    pub state: Arc<DirectMappingState>,
    /// Byte offset of the row in the mapping.
    pub offset: usize,
    /// Decoded copy of the row.
    pub row: ChunkInfoRow,
    /// The chunk's digest, leading the row on disk.
    pub digest: Vec<u8>,
}

impl DirectChunkInfoV6 {
    /// Well-formedness: the decoded copy and digest match the mapped row,
    /// which lies inside the chunk table of its snapshot.
    pub open spec fn wf(&self) -> bool {
        &&& range_in(self.state@.bytes, self.offset as int, CHUNK_INFO_SIZE as int)
        &&& self.row == chunk_info_at(self.state@.bytes, self.offset as int)
        &&& self.digest@ == chunk_digest_at(self.state@.bytes, self.offset as int)
        &&& self.state@.meta.chunk_table_offset <= self.offset
        &&& self.offset + CHUNK_INFO_SIZE <= self.state@.meta.chunk_table_offset
            + self.state@.meta.chunk_table_size
    }

    /// Read sidecar row `idx` of snapshot `state`.
    ///
    /// Succeeds exactly when the row lies inside the chunk table and the
    /// table's bytes for it are contained in the mapping; a row past the
    /// table is `InvalidArgument`, a table extending past the mapping is
    /// `InvalidData`.
    pub fn new(state: Arc<DirectMappingState>, idx: usize) -> (r: RafsResult<DirectChunkInfoV6>)
        ensures
            r is Ok <==> (idx * (CHUNK_INFO_SIZE as int) + (CHUNK_INFO_SIZE as int)
                <= state@.meta.chunk_table_size && range_in(
                state@.bytes,
                state@.meta.chunk_table_offset + idx * (CHUNK_INFO_SIZE as int),
                CHUNK_INFO_SIZE as int,
            )),
            idx * (CHUNK_INFO_SIZE as int) + (CHUNK_INFO_SIZE as int)
                > state@.meta.chunk_table_size ==> r == Err::<DirectChunkInfoV6, _>(
                RafsError::InvalidArgument,
            ),
            idx * (CHUNK_INFO_SIZE as int) + (CHUNK_INFO_SIZE as int)
                <= state@.meta.chunk_table_size && !range_in(
                state@.bytes,
                state@.meta.chunk_table_offset + idx * (CHUNK_INFO_SIZE as int),
                CHUNK_INFO_SIZE as int,
            ) ==> r == Err::<DirectChunkInfoV6, _>(RafsError::InvalidData),
            r matches Ok(c) ==> c.wf() && c.state@ == state@ && c.offset
                == state@.meta.chunk_table_offset + idx * (CHUNK_INFO_SIZE as int),
    {
        let map_len = state.map.len();
        let table_off = state.meta.chunk_table_offset;
        let table_size = state.meta.chunk_table_size;
        let rel = match (idx as u64).checked_mul(CHUNK_INFO_SIZE as u64) {
            Some(v) => v,
            None => {
                return Err(RafsError::InvalidArgument);
            },
        };
        if table_size < CHUNK_INFO_SIZE as u64 || rel > table_size - CHUNK_INFO_SIZE as u64 {
            return Err(RafsError::InvalidArgument);
        }
        let off_u64 = match table_off.checked_add(rel) {
            Some(v) => v,
            None => {
                return Err(RafsError::InvalidData);
            },
        };
        if off_u64 > usize::MAX as u64 {
            return Err(RafsError::InvalidData);
        }
        let offset = off_u64 as usize;
        let row = match read_chunk_info(&state.map, offset) {
            Ok(x) => x,
            Err(_) => {
                return Err(RafsError::InvalidData);
            },
        };
        let digest = state.map.copy_slice(offset, 32)?;
        Ok(DirectChunkInfoV6 { state, offset, row, digest })
    }

    /// The chunk's digest bytes.
    pub fn chunk_id(&self) -> (r: &Vec<u8>)
        ensures
            r@ == self.digest@,
    {
        &self.digest
    }

    /// The chunk's global index within its blob.
    pub fn id(&self) -> (r: u32)
        ensures
            r == self.row.index,
    {
        self.row.index
    }

    /// Index of the blob holding the chunk.
    pub fn blob_index(&self) -> (r: u32)
        ensures
            r == self.row.blob_index,
    {
        self.row.blob_index
    }

    /// Offset of the chunk inside the blob.
    pub fn compressed_offset(&self) -> (r: u64)
        ensures
            r == self.row.compressed_offset,
    {
        self.row.compressed_offset
    }

    /// Size of the chunk inside the blob.
    pub fn compressed_size(&self) -> (r: u32)
        ensures
            r == self.row.compressed_size,
    {
        self.row.compressed_size
    }

    /// Offset of the chunk in uncompressed content space.
    pub fn uncompressed_offset(&self) -> (r: u64)
        ensures
            r == self.row.uncompressed_offset,
    {
        self.row.uncompressed_offset
    }

    /// Size of the chunk's uncompressed content.
    pub fn uncompressed_size(&self) -> (r: u32)
        ensures
            r == self.row.uncompressed_size,
    {
        self.row.uncompressed_size
    }

    /// Hint: offset of the chunk within the original file.
    pub fn file_offset(&self) -> (r: u64)
        ensures
            r == self.row.file_offset,
    {
        self.row.file_offset
    }

    /// Whether the chunk is stored compressed.
    pub fn is_compressed(&self) -> (r: bool)
        ensures
            r == (self.row.flags & CHUNK_FLAG_COMPRESSED == CHUNK_FLAG_COMPRESSED),
    {
        self.row.flags & CHUNK_FLAG_COMPRESSED == CHUNK_FLAG_COMPRESSED
    }
}

/// Hot-swap isolation: every read of a handle goes to the snapshot the
/// handle was materialized from. Publishing a new state tuple changes what
/// later snapshots see, but it cannot change the view behind an existing
/// handle, so data already materialized stays consistent until the handle
/// is dropped.
pub proof fn lemma_hot_swap_isolation(w: OndiskInodeWrapper, s: StateView)
    requires
        w.state@ == s,
    ensures
        w.bytes() == s.bytes,
        w.meta() == s.meta,
{
}

} // verus!
