//! The top-level filesystem facade: cached superblock state, inode access
//! by path, and directory-tree walking.

use vstd::prelude::*;

verus! {

use vstd::string::StringSliceAdditionalSpecFns;

use crate::dir::ChildEntry;
use crate::inode::OndiskInodeWrapper;
use crate::meta::{RafsMode, RafsSuperMeta, RAFS_SUPER_VERSION_V6};
use crate::state::StateView;
use crate::superblock::DirectSuperBlockV6;
use crate::{RafsError, RafsResult};

/// Deepest directory nesting the tree walkers will follow; an adversarial
/// parent chain or cycle fails instead of recursing without bound.
pub const RAFS_MAX_WALK_DEPTH: u64 = 4096;

/// Length of the leading path segment: the bytes before the first `/`.
pub open spec fn seg_len(s: Seq<u8>) -> int
    decreases s.len(),
{
    if s.len() == 0 {
        0
    } else if s[0] == '/' as u8 {
        0
    } else {
        1 + seg_len(s.skip(1))
    }
}

/// The segment length is within the bytes, the segment holds no separator,
/// and the byte after it (if any) is a separator.
pub proof fn lemma_seg_len(s: Seq<u8>)
    ensures
        0 <= seg_len(s) <= s.len(),
        forall|j: int| 0 <= j < seg_len(s) ==> s[j] != '/' as u8,
        seg_len(s) < s.len() ==> s[seg_len(s)] == '/' as u8,
    decreases s.len(),
{
    if s.len() > 0 && s[0] != '/' as u8 {
        lemma_seg_len(s.skip(1));
        assert forall|j: int| 0 <= j < seg_len(s) implies s[j] != '/' as u8 by {
            if j > 0 {
                assert(s.skip(1)[j - 1] == s[j]);
                assert(s.skip(1)[j - 1] != '/' as u8);
            }
        }
        if seg_len(s) < s.len() {
            assert(s.skip(1)[seg_len(s) - 1] == s[seg_len(s)]);
        }
    }
}

/// The components of a path: maximal runs of non-separator bytes, in order;
/// empty components (from doubled or trailing separators) do not appear.
pub open spec fn spec_split(s: Seq<u8>) -> Seq<Seq<u8>>
    decreases s.len(),
    when s.len() >= 0
    via spec_split_decreases
{
    if s.len() == 0 {
        Seq::empty()
    } else if s[0] == '/' as u8 {
        spec_split(s.skip(1))
    } else {
        seq![s.take(seg_len(s))] + spec_split(s.skip(seg_len(s)))
    }
}

#[via_fn]
proof fn spec_split_decreases(s: Seq<u8>) {
    lemma_seg_len(s);
}

/// One resolution step: the directory `parent` (an inode handle of state
/// `sv`) has an entry named `name` whose nid is `child`.
pub open spec fn spec_step(sv: StateView, parent: OndiskInodeWrapper, name: Seq<u8>, child: u64)
    -> bool {
    &&& parent.state@ == sv
    &&& exists|p: int|
        0 <= p < parent.dir_entries().len() && (#[trigger] parent.dir_entries()[p]).name == name
            && parent.dir_entries()[p].nid == child
}

/// An absolute path resolves to `ino`: there is a chain of nids from the
/// root to `ino` and, for each path component in order, a directory handle
/// of the state on which the component names the next nid of the chain.
pub open spec fn spec_resolved(
    sv: StateView,
    root: u64,
    comps: Seq<Seq<u8>>,
    ino: u64,
) -> bool {
    exists|chain: Seq<u64>, hs: Seq<OndiskInodeWrapper>|
        #![trigger chain.len(), hs.len()]
        {
            &&& chain.len() == comps.len() + 1
            &&& hs.len() == comps.len()
            &&& chain[0] == root
            &&& chain[comps.len() as int] == ino
            &&& forall|j: int|
                0 <= j < comps.len() ==> #[trigger] spec_step(sv, hs[j], comps[j], chain[j + 1])
                    && hs[j].spec_ino() == chain[j]
        }
}

/// A component list resolves from nid `cur`: it is empty, or `cur` is a
/// mapped, well-formed, sorted directory holding the first component, and
/// every entry carrying it leads on to a nid from which the rest resolves.
pub open spec fn spec_resolvable(sv: StateView, cur: u64, comps: Seq<Seq<u8>>) -> bool
    decreases comps.len(),
{
    comps.len() == 0 || {
        &&& crate::superblock::spec_is_dir_nid(sv, cur)
        &&& forall|w: OndiskInodeWrapper|
            #[trigger] crate::superblock::spec_handle_of(w, sv, cur) ==> {
                &&& w.dir_wf()
                &&& crate::lookup::dir_sorted(w.dir_entries())
                &&& exists|p: int|
                    0 <= p < w.dir_entries().len() && (#[trigger] w.dir_entries()[p]).name
                        == comps[0]
                &&& forall|p: int|
                    0 <= p < w.dir_entries().len() && (#[trigger] w.dir_entries()[p]).name
                        == comps[0] ==> spec_resolvable(sv, w.dir_entries()[p].nid, comps.skip(1))
            }
    }
}

/// A chain of handles following cached parent links from `ino` up to a
/// child of the root: each handle carries a name and a parent, each next
/// handle is the previous one's parent, and the last one's parent is the
/// root.
pub open spec fn spec_parent_chain(
    sv: StateView,
    root: u64,
    ino: u64,
    hs: Seq<OndiskInodeWrapper>,
) -> bool {
    &&& hs.len() >= 1
    &&& hs[0].spec_ino() == ino
    &&& forall|j: int|
        0 <= j < hs.len() ==> ((#[trigger] hs[j]).state@ == sv && hs[j].name is Some
            && hs[j].parent_inode is Some)
    &&& forall|j: int|
        0 <= j < hs.len() - 1 ==> (#[trigger] hs[j + 1]).spec_ino()
            == hs[j].parent_inode->Some_0
    &&& hs[hs.len() - 1].parent_inode == Some(root)
}

/// The absolute path a parent chain spells: one `/`-prefixed name per
/// handle, outermost ancestor first.
pub open spec fn spec_joined_names(hs: Seq<OndiskInodeWrapper>) -> Seq<u8>
    decreases hs.len(),
{
    if hs.len() == 0 {
        Seq::empty()
    } else {
        spec_joined_names(hs.skip(1)) + seq!['/' as u8] + hs[0].name->Some_0@
    }
}

/// Nid `n` appears as a non-dot entry of some directory handle of the state.
pub open spec fn spec_from_entry(sv: StateView, n: u64) -> bool {
    exists|w: OndiskInodeWrapper, p: int|
        w.state@ == sv && 0 <= p < w.dir_entries().len() && (#[trigger] w.dir_entries()[p]).nid
            == n && !crate::dir::spec_is_dot(w.dir_entries()[p])
}

/// The inode record of nid `n` is a non-empty regular file of the state.
pub open spec fn spec_nonempty_reg(sv: StateView, n: u64) -> bool {
    &&& crate::layout::inode_record_in(sv.bytes, crate::inode::spec_slot_offset(sv.meta, n))
    &&& crate::layout::inode_at(
        sv.bytes,
        crate::inode::spec_slot_offset(sv.meta, n),
    ).mode & crate::inode::S_IFMT == crate::inode::S_IFREG
    &&& crate::layout::inode_at(sv.bytes, crate::inode::spec_slot_offset(sv.meta, n)).size > 0
}

/// Cached RAFS superblock and inode facade.
pub struct RafsSuper {
    /// Metadata working mode; only direct mapping is served.
    pub mode: RafsMode,
    /// Whether data digests should be validated by the storage layer.
    pub validate_digest: bool,
    /// Cached metadata from the on-disk super block.
    pub meta: RafsSuperMeta,
    /// The filesystem super block driver.
    pub superblock: DirectSuperBlockV6,
}

impl RafsSuper {
    /// Create a facade in the given working mode, with no metadata loaded.
    ///
    /// Succeeds exactly on the mode strings `"direct"` and `"cached"`.
    pub fn new(mode: &str, validate_digest: bool) -> (r: RafsResult<RafsSuper>)
        ensures
            r is Ok <==> (mode.spec_bytes() == "direct".spec_bytes() || mode.spec_bytes()
                == "cached".spec_bytes()),
            r matches Ok(s) ==> {
                &&& s.mode == (if mode.spec_bytes() == "direct".spec_bytes() {
                    RafsMode::Direct
                } else {
                    RafsMode::Cached
                })
                &&& s.validate_digest == validate_digest
                &&& s.meta == RafsSuperMeta::spec_default()
                &&& s.superblock.spec_state().bytes == Seq::<u8>::empty()
                &&& s.superblock.chunk_map is None
            },
    {
        let m = RafsMode::from_str(mode)?;
        let meta = RafsSuperMeta::default();
        Ok(RafsSuper { mode: m, validate_digest, meta, superblock: DirectSuperBlockV6::new(&meta) })
    }

    /// Load a bootstrap: cache its superblock metadata and publish its
    /// bytes. Only the v6 dialect is served.
    ///
    /// Succeeds exactly when the metadata is of the v6 dialect with a
    /// non-zero chunk size and the blob table range sits inside
    /// `[4096, len - 4096)` as a whole number of records.
    pub fn load(&mut self, meta: RafsSuperMeta, bytes: Vec<u8>) -> (r: RafsResult<()>)
        ensures
            r is Ok <==> {
                &&& meta.version == RAFS_SUPER_VERSION_V6
                &&& meta.chunk_size > 0
                &&& bytes@.len() >= 8192
                &&& 4096 <= meta.blob_table_offset
                &&& meta.blob_table_offset + meta.blob_table_size <= bytes@.len() - 4096
                &&& meta.blob_table_offset + meta.blob_table_size <= usize::MAX
                &&& meta.blob_table_size % (crate::blob::BLOB_ENTRY_SIZE as u32) == 0
            },
            meta.version != RAFS_SUPER_VERSION_V6 ==> r == Err::<(), _>(RafsError::InvalidData),
            r is Ok ==> final(self).meta == meta && final(self).superblock.info == meta
                && final(self).superblock.spec_state().bytes == bytes@
                && final(self).superblock.spec_state().meta == meta
                && final(self).superblock.chunk_map is None,
            r is Err ==> *final(self) == *old(self),
    {
        if meta.version != RAFS_SUPER_VERSION_V6 {
            return Err(RafsError::InvalidData);
        }
        let mut sb = DirectSuperBlockV6::new(&meta);
        sb.load(bytes)?;
        self.meta = meta;
        self.superblock = sb;
        Ok(())
    }

    /// Reload the filesystem from a new bootstrap image: the hot-swap
    /// path. Same validation as `load`, against the cached metadata.
    pub fn update(&mut self, bytes: Vec<u8>) -> (r: RafsResult<()>)
        ensures
            r is Ok <==> {
                &&& old(self).superblock.info.chunk_size > 0
                &&& bytes@.len() >= 8192
                &&& 4096 <= old(self).superblock.info.blob_table_offset
                &&& old(self).superblock.info.blob_table_offset
                    + old(self).superblock.info.blob_table_size <= bytes@.len() - 4096
                &&& old(self).superblock.info.blob_table_offset
                    + old(self).superblock.info.blob_table_size <= usize::MAX
                &&& old(self).superblock.info.blob_table_size % (
                crate::blob::BLOB_ENTRY_SIZE as u32) == 0
            },
            r is Ok ==> final(self).superblock.spec_state().bytes == bytes@
                && final(self).superblock.spec_state().meta == old(self).superblock.info
                && final(self).superblock.chunk_map is None,
            r is Err ==> *final(self) == *old(self),
            final(self).meta == old(self).meta,
    {
        self.superblock.update(bytes)
    }

    /// Drop the published mapping.
    pub fn destroy(&mut self)
        ensures
            final(self).superblock.spec_state().bytes == Seq::<u8>::empty(),
    {
        self.superblock.destroy()
    }

    /// The maximum inode number supported by the filesystem instance.
    pub fn get_max_ino(&self) -> (r: u64)
        ensures
            r == crate::superblock::RAFS_V6_MAX_INO,
    {
        self.superblock.get_max_ino()
    }

    /// The handle of inode `ino` against the current snapshot; succeeds
    /// exactly when the nid's record is contained in the mapping.
    pub fn get_inode(&self, ino: u64, validate_inode: bool) -> (r: RafsResult<OndiskInodeWrapper>)
        ensures
            r is Ok <==> crate::layout::inode_record_in(
                self.superblock.spec_state().bytes,
                crate::inode::spec_slot_offset(self.superblock.spec_state().meta, ino),
            ),
            r matches Ok(w) ==> w.wf() && w.state@ == self.superblock.spec_state() && w.spec_ino()
                == ino && w.parent_inode is None && w.name is None,
    {
        self.superblock.get_inode(ino, validate_inode)
    }

    /// The handle of inode `ino` with parent and name filled in; the same
    /// success and error characterization as the superblock's constructor.
    pub fn get_extended_inode(&self, ino: u64, validate_inode: bool) -> (r: RafsResult<
        OndiskInodeWrapper,
    >)
        ensures
            r matches Ok(w) ==> w.wf() && w.state@ == self.superblock.spec_state() && w.spec_ino()
                == ino && w.parent_inode is Some && w.name is Some,
            ino == self.superblock.info.root_nid as u64 ==> (r matches Ok(w) ==> w.parent_inode
                == Some(ino) && (w.name matches Some(n) && n@ == seq!['/' as u8])),
            ino == self.superblock.info.root_nid as u64 && crate::layout::inode_record_in(
                self.superblock.spec_state().bytes,
                crate::inode::spec_slot_offset(self.superblock.spec_state().meta, ino),
            ) ==> r is Ok,
            ino != self.superblock.info.root_nid as u64 && crate::layout::inode_record_in(
                self.superblock.spec_state().bytes,
                crate::inode::spec_slot_offset(self.superblock.spec_state().meta, ino),
            ) && !crate::superblock::spec_is_dir_nid(self.superblock.spec_state(), ino) ==> r
                == Err::<OndiskInodeWrapper, _>(RafsError::NotFound),
            ino != self.superblock.info.root_nid as u64 && crate::superblock::spec_extended_ready(
                self.superblock.spec_state(),
                ino,
            ) ==> r is Ok,
            ino != self.superblock.info.root_nid as u64 ==> (r matches Ok(w) ==> exists|
                ph: OndiskInodeWrapper,
                p: int,
            |
                crate::superblock::spec_handle_of(
                    ph,
                    self.superblock.spec_state(),
                    w.parent_inode->Some_0,
                ) && 0 <= p < ph.dir_entries().len() && (#[trigger] ph.dir_entries()[p]).nid == ino
                    && ph.dir_entries()[p].name == w.name->Some_0@),
    {
        self.superblock.get_extended_inode(ino, validate_inode)
    }

    /// Resolve an absolute path to an inode number by walking child lookups
    /// from the root.
    ///
    /// The path must be absolute; `/` resolves to the root itself. Any
    /// other resolved nid is reached by a chain of directory entries, one
    /// lookup per path component in order.
    #[verifier::loop_isolation(false)]
    pub fn ino_from_path(&self, path: &[u8]) -> (r: RafsResult<u64>)
        ensures
            path@.len() == 0 || path@[0] != '/' as u8 ==> r == Err::<u64, _>(
                RafsError::InvalidArgument,
            ),
            path@.len() > 0 && path@[0] == '/' as u8 && spec_split(path@).len() == 0 ==> r
                == Ok::<_, RafsError>(self.superblock.info.root_nid as u64),
            r matches Ok(ino) ==> spec_resolved(
                self.superblock.spec_state(),
                self.superblock.info.root_nid as u64,
                spec_split(path@),
                ino,
            ),
            path@.len() > 0 && path@[0] == '/' as u8 && spec_resolvable(
                self.superblock.spec_state(),
                self.superblock.info.root_nid as u64,
                spec_split(path@),
            ) ==> r is Ok,
    {
        let n = path.len();
        if n == 0 || *vstd::slice::slice_index_get(path, 0) != '/' as u8 {
            return Err(RafsError::InvalidArgument);
        }
        let root = self.superblock.root_ino();
        let ghost comps = spec_split(path@);
        let ghost g = spec_resolvable(self.superblock.spec_state(), root, comps);
        let mut cur: u64 = root;
        let mut i: usize = 0;
        let ghost mut chain: Seq<u64> = seq![root];
        let ghost mut hs: Seq<OndiskInodeWrapper> = Seq::empty();
        let ghost mut done: int = 0;
        proof {
            assert(path@.skip(0) =~= path@);
            assert(comps.skip(0) =~= comps);
        }
        while i < n
            invariant
                i <= n,
                0 <= done <= comps.len(),
                chain.len() == done + 1,
                hs.len() == done,
                chain[0] == root,
                chain[done] == cur,
                spec_split(path@.skip(i as int)) == comps.skip(done),
                g ==> spec_resolvable(self.superblock.spec_state(), cur, comps.skip(done)),
                forall|j: int|
                    0 <= j < done ==> #[trigger] spec_step(
                        self.superblock.spec_state(),
                        hs[j],
                        comps[j],
                        chain[j + 1],
                    ) && hs[j].spec_ino() == chain[j],
            decreases n - i,
        {
            let c = *vstd::slice::slice_index_get(path, i);
            if c == '/' as u8 {
                proof {
                    assert(path@.skip(i as int).skip(1) =~= path@.skip(i as int + 1));
                }
                i = i + 1;
            } else {
                proof {
                    lemma_seg_len(path@.skip(i as int));
                }
                let mut k: usize = i;
                while k < n && *vstd::slice::slice_index_get(path, k) != '/' as u8
                    invariant
                        i <= k <= n,
                        forall|j: int| i <= j < k ==> path@[j] != '/' as u8,
                    decreases n - k,
                {
                    k = k + 1;
                }
                proof {
                    assert forall|j: int| 0 <= j < k - i implies path@.skip(i as int)[j] != (
                    '/' as u8) by {
                        assert(path@.skip(i as int)[j] == path@[i + j]);
                    }
                    if k < n {
                        assert(path@.skip(i as int)[k - i] == path@[k as int]);
                    }
                    assert(seg_len(path@.skip(i as int)) == k - i);
                }
                let name = vstd::slice::slice_to_vec(
                    vstd::slice::slice_subrange(path, i, k),
                );
                proof {
                    let rest = path@.skip(i as int);
                    assert(spec_split(rest).len() >= 1);
                    assert(rest.take(seg_len(rest)) =~= name@);
                    assert(rest.skip(seg_len(rest)) =~= path@.skip(k as int));
                    assert(comps.skip(done)[0] == name@);
                    assert(comps[done] == name@);
                }
                let parent = match self.superblock.get_inode(cur, self.validate_digest) {
                    Ok(p) => p,
                    Err(e) => {
                        proof {
                            if g {
                                assert(crate::superblock::spec_is_dir_nid(
                                    self.superblock.spec_state(),
                                    cur,
                                ));
                                assert(false);
                            }
                        }
                        return Err(e);
                    },
                };
                proof {
                    assert(crate::superblock::spec_handle_of(
                        parent,
                        self.superblock.spec_state(),
                        cur,
                    ));
                }
                let child = match parent.get_child_by_name(name.as_slice()) {
                    Ok(c) => c,
                    Err(e) => {
                        proof {
                            if g {
                                assert(crate::superblock::spec_is_dir_nid(
                                    self.superblock.spec_state(),
                                    cur,
                                ));
                                assert(parent.dir_wf() && crate::lookup::dir_sorted(
                                    parent.dir_entries(),
                                ));
                                assert(false);
                            }
                        }
                        return Err(e);
                    },
                };
                proof {
                    let p = choose|p: int|
                        0 <= p < parent.dir_entries().len() && #[trigger] parent.dir_entries()[p]
                            == child@;
                    assert(parent.dir_entries()[p].name == comps[done]
                        && parent.dir_entries()[p].nid == child.nid);
                    if g {
                        assert(comps.skip(done).skip(1) =~= comps.skip(done + 1));
                        assert(spec_resolvable(
                            self.superblock.spec_state(),
                            child.nid,
                            comps.skip(done + 1),
                        ));
                    }
                    chain = chain.push(child.nid);
                    hs = hs.push(parent);
                    assert(spec_step(self.superblock.spec_state(), parent, comps[done], child.nid));
                    done = done + 1;
                    assert(comps.skip(done - 1).skip(1) =~= comps.skip(done));
                }
                cur = child.nid;
                i = k;
            }
        }
        proof {
            assert(path@.skip(n as int) =~= Seq::<u8>::empty());
            assert(comps.skip(done).len() == 0);
            assert(done == comps.len());
            assert(chain.len() == comps.len() + 1 && hs.len() == comps.len() && chain[0] == root
                && chain[comps.len() as int] == cur);
        }
        Ok(cur)
    }

    /// The absolute path of inode `ino`, built by following cached parent
    /// links up to the root.
    ///
    /// The root resolves to `/` whenever its record is mapped. Any other
    /// resolved path is spelled by a chain of extended handles from the
    /// inode up to a child of the root, one `/`-prefixed name per ancestor;
    /// a chain deeper than the walk bound fails rather than looping on a
    /// malformed parent graph.
    pub fn path_from_ino(&self, ino: u64) -> (r: RafsResult<Vec<u8>>)
        ensures
            ino == self.superblock.info.root_nid as u64 && r is Ok ==> (r matches Ok(v) && v@
                == seq!['/' as u8]),
            ino == self.superblock.info.root_nid as u64 && crate::layout::inode_record_in(
                self.superblock.spec_state().bytes,
                crate::inode::spec_slot_offset(self.superblock.spec_state().meta, ino),
            ) ==> r is Ok,
            ino != self.superblock.info.root_nid as u64 ==> (r matches Ok(v) ==> exists|
                hs: Seq<OndiskInodeWrapper>,
            |
                #[trigger] spec_parent_chain(
                    self.superblock.spec_state(),
                    self.superblock.info.root_nid as u64,
                    ino,
                    hs,
                ) && v@ == spec_joined_names(hs)),
    {
        let ghost sv = self.superblock.spec_state();
        if ino == self.superblock.root_ino() {
            let w = self.superblock.get_extended_inode(ino, false)?;
            let name = w.name()?;
            let out = crate::names::copy_cstr_full(name.as_slice());
            proof {
                assert(out@ =~= seq!['/' as u8]);
            }
            return Ok(out);
        }
        let mut segments: Vec<Vec<u8>> = Vec::new();
        let ghost mut hsv: Seq<OndiskInodeWrapper> = Seq::empty();
        let mut cur: u64 = ino;
        let mut depth: u64 = 0;
        let root = self.superblock.root_ino();
        while cur != root && depth < RAFS_MAX_WALK_DEPTH
            invariant
                depth <= RAFS_MAX_WALK_DEPTH,
                sv == self.superblock.spec_state(),
                root == self.superblock.info.root_nid as u64,
                ino != root,
                segments@.len() == hsv.len(),
                hsv.len() == 0 ==> cur == ino,
                hsv.len() >= 1 ==> hsv[0].spec_ino() == ino,
                hsv.len() >= 1 ==> cur == hsv[hsv.len() - 1].parent_inode->Some_0,
                forall|q: int|
                    0 <= q < hsv.len() ==> ((#[trigger] hsv[q]).state@ == sv && hsv[q].name
                        is Some && hsv[q].parent_inode is Some),
                forall|q: int|
                    0 <= q < hsv.len() - 1 ==> (#[trigger] hsv[q + 1]).spec_ino()
                        == hsv[q].parent_inode->Some_0,
                forall|q: int|
                    0 <= q < hsv.len() ==> (#[trigger] segments@[q])@ == hsv[q].name->Some_0@,
            decreases RAFS_MAX_WALK_DEPTH - depth,
        {
            let w = self.superblock.get_extended_inode(cur, false)?;
            let name = w.name()?;
            segments.push(crate::names::copy_cstr_full(name.as_slice()));
            cur = w.parent()?;
            proof {
                hsv = hsv.push(w);
            }
            depth = depth + 1;
        }
        if cur != root {
            return Err(RafsError::InvalidData);
        }
        proof {
            assert(hsv.len() >= 1);
            assert(spec_parent_chain(sv, root, ino, hsv));
        }
        let mut out: Vec<u8> = Vec::new();
        let mut i: usize = segments.len();
        proof {
            assert(hsv.skip(i as int) =~= Seq::<OndiskInodeWrapper>::empty());
        }
        while i > 0
            invariant
                i <= segments@.len(),
                segments@.len() == hsv.len(),
                forall|q: int|
                    0 <= q < hsv.len() ==> ((#[trigger] hsv[q]).name is Some && segments@[q]@
                        == hsv[q].name->Some_0@),
                out@ == spec_joined_names(hsv.skip(i as int)),
            decreases i,
        {
            i = i - 1;
            let ghost pre = out@;
            out.push('/' as u8);
            let seg = &segments[i];
            let mut j: usize = 0;
            let m = seg.len();
            while j < m
                invariant
                    j <= m,
                    m == seg@.len(),
                    out@ == pre + seq!['/' as u8] + seg@.take(j as int),
                decreases m - j,
            {
                out.push(seg[j]);
                j = j + 1;
                proof {
                    assert(pre + seq!['/' as u8] + seg@.take(j - 1) + seq![seg@[j - 1]] =~= pre
                        + seq!['/' as u8] + seg@.take(j as int));
                }
            }
            proof {
                assert(seg@.take(m as int) =~= seg@);
                assert(hsv.skip(i as int).skip(1) =~= hsv.skip(i as int + 1));
                assert(hsv.skip(i as int)[0] == hsv[i as int]);
                assert(out@ == spec_joined_names(hsv.skip(i as int)));
            }
        }
        proof {
            assert(hsv.skip(0) =~= hsv);
        }
        Ok(out)
    }

    /// Walk the subtree rooted at `ino` depth-first, returning each visited
    /// inode's nid with its path below the walk root.
    ///
    /// The walk root must be a mapped directory, and heads the result with
    /// an empty relative path; every other returned nid was found as a
    /// non-dot entry of some directory of the state. Nesting beyond the
    /// walk bound fails rather than recursing without bound on a malformed
    /// tree.
    pub fn walk_directory(&self, ino: u64) -> (r: RafsResult<Vec<(u64, Vec<u8>)>>)
        ensures
            crate::layout::inode_record_in(
                self.superblock.spec_state().bytes,
                crate::inode::spec_slot_offset(self.superblock.spec_state().meta, ino),
            ) && !crate::superblock::spec_is_dir_nid(self.superblock.spec_state(), ino) ==> r
                == Err::<Vec<(u64, Vec<u8>)>, _>(RafsError::NotDirectory),
            r is Ok ==> crate::superblock::spec_is_dir_nid(self.superblock.spec_state(), ino),
            r matches Ok(v) ==> v@.len() >= 1 && v@[0].0 == ino && v@[0].1@ == Seq::<u8>::empty(),
            r matches Ok(v) ==> forall|q: int|
                1 <= q < v@.len() ==> spec_from_entry(
                    self.superblock.spec_state(),
                    (#[trigger] v@[q]).0,
                ),
    {
        let inode = self.get_inode(ino, false)?;
        if !inode.is_dir() {
            return Err(RafsError::NotDirectory);
        }
        let mut out: Vec<(u64, Vec<u8>)> = Vec::new();
        let root_path: Vec<u8> = Vec::new();
        out.push((ino, root_path));
        self.do_walk_directory(ino, Vec::new(), RAFS_MAX_WALK_DEPTH, &mut out)?;
        Ok(out)
    }

    /// Depth-first recursion of `walk_directory`: append every child of
    /// `ino`, descending into directories while fuel remains. The prior
    /// contents of `out` are kept, and every appended nid was found as a
    /// non-dot entry of some directory of the state.
    fn do_walk_directory(
        &self,
        ino: u64,
        prefix: Vec<u8>,
        fuel: u64,
        out: &mut Vec<(u64, Vec<u8>)>,
    ) -> (r: RafsResult<()>)
        ensures
            final(out)@.len() >= old(out)@.len(),
            forall|q: int| 0 <= q < old(out)@.len() ==> final(out)@[q] == old(out)@[q],
            forall|q: int|
                old(out)@.len() <= q < final(out)@.len() ==> spec_from_entry(
                    self.superblock.spec_state(),
                    (#[trigger] final(out)@[q]).0,
                ),
        decreases fuel,
    {
        let ghost sv = self.superblock.spec_state();
        if fuel == 0 {
            return Err(RafsError::InvalidData);
        }
        let inode = self.get_inode(ino, false)?;
        if !inode.is_dir() {
            return Ok(());
        }
        let children = inode.walk_children_inodes(0)?;
        let n = children.len();
        let mut i: usize = 0;
        while i < n
            invariant
                fuel >= 1,
                sv == self.superblock.spec_state(),
                inode.state@ == sv,
                n == children@.len(),
                children@.len() == inode.dir_entries().len(),
                forall|q: int|
                    0 <= q < n ==> (#[trigger] children@[q])@ == inode.dir_entries()[q],
                i <= n,
                out@.len() >= old(out)@.len(),
                forall|q: int| 0 <= q < old(out)@.len() ==> out@[q] == old(out)@[q],
                forall|q: int|
                    old(out)@.len() <= q < out@.len() ==> spec_from_entry(
                        sv,
                        (#[trigger] out@[q]).0,
                    ),
            decreases n - i,
        {
            let is_dot = self.entry_is_dot(&children[i]);
            if !is_dot {
                let mut path = crate::names::copy_cstr_full(prefix.as_slice());
                path.push('/' as u8);
                let mut j: usize = 0;
                let m = children[i].name.len();
                while j < m
                    invariant
                        j <= m,
                        m == children@[i as int].name@.len(),
                        i < n,
                        n == children@.len(),
                    decreases m - j,
                {
                    path.push(children[i].name[j]);
                    j = j + 1;
                }
                let sub = crate::names::copy_cstr_full(path.as_slice());
                proof {
                    assert(inode.dir_entries()[i as int].nid == children@[i as int].nid
                        && !crate::dir::spec_is_dot(inode.dir_entries()[i as int]));
                    assert(spec_from_entry(sv, children@[i as int].nid));
                }
                out.push((children[i].nid, path));
                self.do_walk_directory(children[i].nid, sub, fuel - 1, out)?;
            }
            i = i + 1;
        }
        Ok(())
    }

    /// Whether an entry is `.` or `..`.
    fn entry_is_dot(&self, e: &ChildEntry) -> (r: bool)
        ensures
            r == crate::dir::spec_is_dot(e@),
    {
        let mut dot: Vec<u8> = Vec::new();
        dot.push('.' as u8);
        let mut dotdot: Vec<u8> = Vec::new();
        dotdot.push('.' as u8);
        dotdot.push('.' as u8);
        proof {
            assert(dot@ =~= seq!['.' as u8]);
            assert(dotdot@ =~= seq!['.' as u8, '.' as u8]);
        }
        matches!(
            crate::names::compare_names(e.name.as_slice(), dot.as_slice()),
            crate::names::NameOrder::Equal
        ) || matches!(
            crate::names::compare_names(e.name.as_slice(), dotdot.as_slice()),
            crate::names::NameOrder::Equal
        )
    }

    /// Collect the regular-file descendants of a directory, depth-first;
    /// directories are descended into, empty files are skipped.
    ///
    /// The walk root must be a mapped directory; the prior contents of
    /// `descendants` are kept, every appended nid is a non-empty regular
    /// file of the state, and success returns 0.
    pub fn collect_descendants_inodes(&self, ino: u64, descendants: &mut Vec<u64>) -> (r:
        RafsResult<usize>)
        ensures
            crate::layout::inode_record_in(
                self.superblock.spec_state().bytes,
                crate::inode::spec_slot_offset(self.superblock.spec_state().meta, ino),
            ) && !crate::superblock::spec_is_dir_nid(self.superblock.spec_state(), ino) ==> r
                == Err::<usize, _>(RafsError::NotDirectory),
            r matches Ok(c) ==> c == 0,
            final(descendants)@.len() >= old(descendants)@.len(),
            forall|q: int|
                0 <= q < old(descendants)@.len() ==> final(descendants)@[q] == old(
                    descendants,
                )@[q],
            forall|q: int|
                old(descendants)@.len() <= q < final(descendants)@.len() ==> spec_nonempty_reg(
                    self.superblock.spec_state(),
                    #[trigger] final(descendants)@[q],
                ),
    {
        let inode = self.get_inode(ino, false)?;
        if !inode.is_dir() {
            return Err(RafsError::NotDirectory);
        }
        self.do_collect(ino, RAFS_MAX_WALK_DEPTH, descendants)?;
        Ok(0)
    }

    /// Depth-first recursion of `collect_descendants_inodes`.
    fn do_collect(&self, ino: u64, fuel: u64, descendants: &mut Vec<u64>) -> (r: RafsResult<()>)
        ensures
            final(descendants)@.len() >= old(descendants)@.len(),
            forall|q: int|
                0 <= q < old(descendants)@.len() ==> final(descendants)@[q] == old(
                    descendants,
                )@[q],
            forall|q: int|
                old(descendants)@.len() <= q < final(descendants)@.len() ==> spec_nonempty_reg(
                    self.superblock.spec_state(),
                    #[trigger] final(descendants)@[q],
                ),
        decreases fuel,
    {
        let ghost sv = self.superblock.spec_state();
        if fuel == 0 {
            return Err(RafsError::InvalidData);
        }
        let inode = self.get_inode(ino, false)?;
        if !inode.is_dir() {
            return Ok(());
        }
        let children = inode.walk_children_inodes(0)?;
        let n = children.len();
        let mut i: usize = 0;
        while i < n
            invariant
                fuel >= 1,
                sv == self.superblock.spec_state(),
                n == children@.len(),
                i <= n,
                descendants@.len() >= old(descendants)@.len(),
                forall|q: int|
                    0 <= q < old(descendants)@.len() ==> descendants@[q] == old(
                        descendants,
                    )@[q],
                forall|q: int|
                    old(descendants)@.len() <= q < descendants@.len() ==> spec_nonempty_reg(
                        sv,
                        #[trigger] descendants@[q],
                    ),
            decreases n - i,
        {
            let is_dot = self.entry_is_dot(&children[i]);
            if !is_dot {
                let child = self.get_inode(children[i].nid, false)?;
                if child.is_dir() {
                    self.do_collect(children[i].nid, fuel - 1, descendants)?;
                } else if child.is_reg() && child.size() > 0 {
                    proof {
                        assert(spec_nonempty_reg(sv, children@[i as int].nid));
                    }
                    descendants.push(children[i].nid);
                }
            }
            i = i + 1;
        }
        Ok(())
    }
}

} // verus!
