//! Name lookup in directories: a binary search over blocks, then a binary
//! search within the candidate block.
//!
//! Both searches rest on the on-disk sort order: entries are stored strictly
//! ascending by name across block-then-position order. The module defines
//! that order, proves that blockwise order amounts to it, and proves the
//! searched result consistent with a linear walk.

use vstd::prelude::*;

verus! {

use crate::dir::{spec_nblocks, ChildEntry, DirEntryView};
use crate::inode::{OndiskInodeWrapper, S_IFDIR, S_IFMT};
use crate::layout::{spec_format_clean, spec_layout, EROFS_INODE_FLAT_INLINE,
    EROFS_INODE_FLAT_PLAIN};
use crate::names::{
    compare_names, lemma_name_lt_trans, lemma_name_order_total, name_lt, NameOrder,
};
use crate::{RafsError, RafsResult};

/// Entries are strictly ascending by name in block-then-position order.
pub open spec fn dir_sorted(es: Seq<DirEntryView>) -> bool {
    forall|i: int, j: int| 0 <= i < j < es.len() ==> name_lt(#[trigger] es[i].name, #[trigger] es[j].name)
}

/// In a sorted directory, a name pins its entry: two entries with one name
/// are the same entry.
pub proof fn lemma_lookup_unique(es: Seq<DirEntryView>, i: int, j: int)
    requires
        dir_sorted(es),
        0 <= i < es.len(),
        0 <= j < es.len(),
        es[i].name == es[j].name,
    ensures
        i == j,
{
    if i < j {
        lemma_name_order_total(es[i].name, es[j].name);
    }
    if j < i {
        lemma_name_order_total(es[j].name, es[i].name);
    }
}

impl OndiskInodeWrapper {
    /// Directory sortedness: entries read in block-then-position order are
    /// strictly ascending by name exactly when every block is ascending and
    /// each block's last name sorts before the next block's first name.
    pub proof fn lemma_blockwise_sorted(&self)
        requires
            forall|k: int|
                0 <= k < spec_nblocks(self.disk.size) ==> (#[trigger] self.dir_block(k)).len() > 0,
            forall|k: int, a: int, b: int|
                0 <= k < spec_nblocks(self.disk.size) && 0 <= a < b < self.dir_block(k).len()
                    ==> name_lt(
                    (#[trigger] self.dir_block(k)[a]).name,
                    (#[trigger] self.dir_block(k)[b]).name,
                ),
            forall|k: int|
                0 <= k < spec_nblocks(self.disk.size) - 1 ==> name_lt(
                    (#[trigger] self.dir_block(k)).last().name,
                    self.dir_block(k + 1)[0].name,
                ),
        ensures
            dir_sorted(self.dir_entries()),
    {
        let n = spec_nblocks(self.disk.size);
        assert forall|k: int| 0 <= k <= n implies dir_sorted(#[trigger] self.dir_entries_upto(k))
            && (0 < k < n ==> self.dir_entries_upto(k).len() > 0 && name_lt(
            self.dir_entries_upto(k).last().name,
            self.dir_block(k)[0].name,
        )) by {
            self.lemma_blockwise_sorted_upto(k);
        }
        assert(dir_sorted(self.dir_entries_upto(n)));
    }

    /// Inductive step of `lemma_blockwise_sorted`: the first `k` blocks are
    /// sorted, and their last entry sorts before block `k`'s first.
    proof fn lemma_blockwise_sorted_upto(&self, k: int)
        requires
            0 <= k <= spec_nblocks(self.disk.size),
            forall|q: int|
                0 <= q < spec_nblocks(self.disk.size) ==> (#[trigger] self.dir_block(q)).len() > 0,
            forall|q: int, a: int, b: int|
                0 <= q < spec_nblocks(self.disk.size) && 0 <= a < b < self.dir_block(q).len()
                    ==> name_lt(
                    (#[trigger] self.dir_block(q)[a]).name,
                    (#[trigger] self.dir_block(q)[b]).name,
                ),
            forall|q: int|
                0 <= q < spec_nblocks(self.disk.size) - 1 ==> name_lt(
                    (#[trigger] self.dir_block(q)).last().name,
                    self.dir_block(q + 1)[0].name,
                ),
        ensures
            dir_sorted(self.dir_entries_upto(k)),
            0 < k < spec_nblocks(self.disk.size) ==> self.dir_entries_upto(k).len() > 0
                && name_lt(self.dir_entries_upto(k).last().name, self.dir_block(k)[0].name),
        decreases k,
    {
        if k > 0 {
            self.lemma_blockwise_sorted_upto(k - 1);
            let prev = self.dir_entries_upto(k - 1);
            let blk = self.dir_block(k - 1);
            let cur = self.dir_entries_upto(k);
            assert(cur == prev + blk);
            assert forall|i: int, j: int| 0 <= i < j < cur.len() implies name_lt(
                #[trigger] cur[i].name,
                #[trigger] cur[j].name,
            ) by {
                if j < prev.len() {
                    assert(cur[i] == prev[i] && cur[j] == prev[j]);
                } else if i >= prev.len() {
                    assert(cur[i] == blk[i - prev.len()] && cur[j] == blk[j - prev.len()]);
                } else {
                    // `i` sits in an earlier block, `j` in block `k - 1`:
                    // chain through the boundary between them.
                    assert(cur[i] == prev[i] && cur[j] == blk[j - prev.len()]);
                    assert(prev.len() > 0);
                    assert(name_lt(prev.last().name, blk[0].name));
                    if i < prev.len() - 1 {
                        assert(name_lt(prev[i].name, prev.last().name));
                        lemma_name_lt_trans(prev[i].name, prev.last().name, blk[0].name);
                    }
                    if j - prev.len() > 0 {
                        assert(name_lt(blk[0].name, blk[j - prev.len()].name));
                        lemma_name_lt_trans(cur[i].name, blk[0].name, blk[j - prev.len()].name);
                    }
                }
            }
            if k < spec_nblocks(self.disk.size) {
                assert(cur.last() == blk.last());
                assert(name_lt(blk.last().name, self.dir_block(k)[0].name));
            }
        }
    }

    /// Locate the block that must hold `name`, by binary search over the
    /// blocks' head and tail names.
    ///
    /// On a well-formed, sorted directory the result block is the only one
    /// that can hold the name: `NotFound` means no entry has it, and a found
    /// block holds the matching entry whenever one exists at all.
    #[verifier::loop_isolation(false)]
    #[verifier::rlimit(100)]
    pub fn find_target_block(&self, name: &[u8]) -> (r: RafsResult<u64>)
        requires
            self.wf(),
            self.disk.size > 0,
            spec_format_clean(self.disk.format),
            spec_layout(self.disk.format) == EROFS_INODE_FLAT_PLAIN || spec_layout(
                self.disk.format,
            ) == EROFS_INODE_FLAT_INLINE,
        ensures
            r matches Ok(k) ==> k < spec_nblocks(self.disk.size),
            self.dir_wf() && dir_sorted(self.dir_entries()) ==> match r {
                Ok(k) => forall|p: int|
                    0 <= p < self.dir_entries().len() && (#[trigger] self.dir_entries()[p]).name
                        == name@ ==> self.dir_entries_upto(k as int).len() <= p
                        < self.dir_entries_upto(k as int + 1).len(),
                Err(e) => e == RafsError::NotFound && forall|p: int|
                    0 <= p < self.dir_entries().len() ==> (#[trigger] self.dir_entries()[p]).name
                        != name@,
            },
    {
        let nblocks = self.blocks_count;
        let ghost es = self.dir_entries();
        let mut lo: u64 = 0;
        let mut hi: u64 = nblocks;
        while lo < hi
            invariant
                0 <= lo <= hi <= nblocks,
                self.dir_wf() && dir_sorted(es) ==> forall|p: int|
                    0 <= p < self.dir_entries_upto(lo as int).len() ==> name_lt(
                        (#[trigger] es[p]).name,
                        name@,
                    ),
                self.dir_wf() && dir_sorted(es) ==> forall|p: int|
                    self.dir_entries_upto(hi as int).len() <= p < es.len() ==> name_lt(
                        name@,
                        (#[trigger] es[p]).name,
                    ),
            decreases hi - lo,
        {
            let mid = lo + (hi - lo) / 2;
            let (bo, limit, count) = match self.block_head(mid) {
                Ok(h) => h,
                Err(_) => {
                    proof {
                        assert(!self.dir_block_wf(mid as int));
                    }
                    return Err(RafsError::InvalidData);
                },
            };
            let head_name = match self.block_entry_name(bo, limit, count, 0) {
                Ok(n) => n,
                Err(_) => {
                    proof {
                        assert(!self.dir_block_wf(mid as int));
                    }
                    return Err(RafsError::InvalidData);
                },
            };
            let tail_name = match self.block_entry_name(bo, limit, count, count - 1) {
                Ok(n) => n,
                Err(_) => {
                    proof {
                        assert(!self.dir_block_wf(mid as int));
                    }
                    return Err(RafsError::InvalidData);
                },
            };
            let ghost base_mid = self.dir_entries_upto(mid as int).len() as int;
            let ghost base_next = self.dir_entries_upto(mid as int + 1).len() as int;
            proof {
                if self.dir_wf() && dir_sorted(es) {
                    self.lemma_entry_position(mid as int, 0);
                    self.lemma_entry_position(mid as int, count as int - 1);
                    assert(es[base_mid].name == head_name@);
                    assert(es[base_next - 1].name == tail_name@);
                    self.lemma_upto_monotone(lo as int, mid as int);
                    self.lemma_upto_monotone(mid as int + 1, hi as int);
                    assert(self.dir_entries_upto(mid as int + 1) == self.dir_entries_upto(
                        mid as int,
                    ) + self.dir_block(mid as int));
                }
            }
            if matches!(compare_names(tail_name.as_slice(), name), NameOrder::Less) {
                proof {
                    if self.dir_wf() && dir_sorted(es) {
                        assert forall|p: int|
                            0 <= p < self.dir_entries_upto(mid as int + 1).len() implies name_lt(
                            (#[trigger] es[p]).name,
                            name@,
                        ) by {
                            if p >= self.dir_entries_upto(lo as int).len() {
                                if p < base_next - 1 {
                                    assert(name_lt(es[p].name, es[base_next - 1].name));
                                    lemma_name_lt_trans(es[p].name, es[base_next - 1].name, name@);
                                }
                            }
                        }
                    }
                }
                lo = mid + 1;
            } else if matches!(compare_names(name, head_name.as_slice()), NameOrder::Less) {
                proof {
                    if self.dir_wf() && dir_sorted(es) {
                        assert forall|p: int|
                            self.dir_entries_upto(mid as int).len() <= p < es.len() implies
                            name_lt(name@, (#[trigger] es[p]).name) by {
                            if p > base_mid {
                                assert(name_lt(es[base_mid].name, es[p].name));
                                lemma_name_lt_trans(name@, es[base_mid].name, es[p].name);
                            }
                        }
                    }
                }
                hi = mid;
            } else {
                proof {
                    if self.dir_wf() && dir_sorted(es) {
                        lemma_name_order_total(tail_name@, name@);
                        lemma_name_order_total(name@, head_name@);
                        assert forall|p: int|
                            0 <= p < es.len() && (#[trigger] es[p]).name == name@ implies base_mid
                                <= p < base_next by {
                            if p < base_mid {
                                self.lemma_upto_monotone(lo as int, mid as int);
                                if p < self.dir_entries_upto(lo as int).len() {
                                    lemma_name_order_total(es[p].name, name@);
                                } else {
                                    // Entries before the block's head sort
                                    // before it, which itself is not above
                                    // the name.
                                    assert(name_lt(es[p].name, es[base_mid].name));
                                    if name_lt(es[base_mid].name, name@) {
                                        lemma_name_lt_trans(
                                            es[p].name,
                                            es[base_mid].name,
                                            name@,
                                        );
                                    }
                                    lemma_name_order_total(es[p].name, name@);
                                }
                            }
                            if p >= base_next {
                                self.lemma_upto_monotone(mid as int + 1, hi as int);
                                if p >= self.dir_entries_upto(hi as int).len() {
                                    lemma_name_order_total(es[p].name, name@);
                                } else {
                                    assert(name_lt(es[base_next - 1].name, es[p].name));
                                    if name_lt(name@, es[base_next - 1].name) {
                                        lemma_name_lt_trans(
                                            name@,
                                            es[base_next - 1].name,
                                            es[p].name,
                                        );
                                    }
                                    lemma_name_order_total(es[p].name, name@);
                                }
                            }
                        }
                    }
                }
                return Ok(mid);
            }
        }
        proof {
            if self.dir_wf() && dir_sorted(es) {
                self.lemma_upto_prefix(spec_nblocks(self.disk.size));
                assert forall|p: int| 0 <= p < es.len() implies (#[trigger] es[p]).name != name@
                    by {
                    if p < self.dir_entries_upto(lo as int).len() {
                        lemma_name_order_total(es[p].name, name@);
                    } else {
                        self.lemma_upto_monotone(hi as int, spec_nblocks(self.disk.size));
                        lemma_name_order_total(es[p].name, name@);
                    }
                }
            }
        }
        Err(RafsError::NotFound)
    }

    /// The child of this directory named `name`.
    ///
    /// A returned entry always is an entry of the directory with that name
    /// and its nid. On a well-formed, sorted directory the lookup succeeds
    /// exactly when some entry has the name — and then agrees with the first
    /// match a linear walk would find, which sortedness makes the only one.
    #[verifier::loop_isolation(false)]
    #[verifier::rlimit(100)]
    pub fn get_child_by_name(&self, name: &[u8]) -> (r: RafsResult<ChildEntry>)
        requires
            self.wf(),
        ensures
            self.disk.mode & S_IFMT != S_IFDIR ==> r == Err::<ChildEntry, _>(
                RafsError::NotDirectory,
            ),
            r matches Ok(e) ==> e@.name == name@ && (exists|p: int|
                0 <= p < self.dir_entries().len() && #[trigger] self.dir_entries()[p] == e@),
            self.dir_wf() && dir_sorted(self.dir_entries()) && self.disk.mode & S_IFMT == S_IFDIR
                ==> ((r is Ok <==> exists|p: int|
                0 <= p < self.dir_entries().len() && (#[trigger] self.dir_entries()[p]).name
                    == name@) && (r is Err ==> r == Err::<ChildEntry, _>(RafsError::NotFound))),
    {
        if !self.is_dir() {
            return Err(RafsError::NotDirectory);
        }
        if self.disk.size == 0 {
            return Err(RafsError::NotFound);
        }
        if !self.disk.format_clean() {
            return Err(RafsError::Incompatible(self.disk.format));
        }
        let layout = self.disk.layout();
        if layout == crate::layout::EROFS_INODE_CHUNK_BASED {
            return Err(RafsError::InvalidData);
        }
        if layout != EROFS_INODE_FLAT_PLAIN && layout != EROFS_INODE_FLAT_INLINE {
            return Err(RafsError::Incompatible(self.disk.format));
        }
        let ghost es = self.dir_entries();
        let target_block = match self.find_target_block(name) {
            Ok(k) => k,
            Err(e) => {
                return Err(e);
            },
        };
        let (bo, limit, count) = match self.block_head(target_block) {
            Ok(h) => h,
            Err(_) => {
                proof {
                    assert(!self.dir_block_wf(target_block as int));
                }
                return Err(RafsError::InvalidData);
            },
        };
        let ghost base = self.dir_entries_upto(target_block as int).len() as int;
        let mut lo: usize = 0;
        let mut hi: usize = count;
        while lo < hi
            invariant
                0 <= lo <= hi <= count,
                self.dir_wf() && dir_sorted(es) ==> forall|j: int|
                    0 <= j < lo ==> name_lt((#[trigger] self.dir_block(target_block as int)[j]).name, name@),
                self.dir_wf() && dir_sorted(es) ==> forall|j: int|
                    hi <= j < count ==> name_lt(name@, (#[trigger] self.dir_block(target_block as int)[j]).name),
            decreases hi - lo,
        {
            let j = lo + (hi - lo) / 2;
            let d = self.block_dirent(bo, limit, count, j);
            let ename = match self.block_entry_name(bo, limit, count, j) {
                Ok(n) => n,
                Err(_) => {
                    proof {
                        assert(!self.dir_block_wf(target_block as int));
                    }
                    return Err(RafsError::InvalidData);
                },
            };
            proof {
                assert(self.dir_block(target_block as int)[j as int].name == ename@);
            }
            match compare_names(ename.as_slice(), name) {
                NameOrder::Equal => {
                    let entry = ChildEntry {
                        nid: d.nid,
                        name: ename,
                        file_type: d.file_type,
                        next_offset: 0,
                    };
                    proof {
                        assert(entry@ == self.dir_block(target_block as int)[j as int]);
                        self.lemma_entry_position(target_block as int, j as int);
                        assert(es[base + j] == entry@);
                    }
                    return Ok(entry);
                },
                NameOrder::Less => {
                    proof {
                        if self.dir_wf() && dir_sorted(es) {
                            assert forall|q: int| 0 <= q < j + 1 implies name_lt(
                                (#[trigger] self.dir_block(target_block as int)[q]).name,
                                name@,
                            ) by {
                                if q < j {
                                    self.lemma_entry_position(target_block as int, q);
                                    self.lemma_entry_position(target_block as int, j as int);
                                    assert(name_lt(es[base + q].name, es[base + j].name));
                                    lemma_name_lt_trans(
                                        self.dir_block(target_block as int)[q].name,
                                        ename@,
                                        name@,
                                    );
                                }
                            }
                        }
                    }
                    lo = j + 1;
                },
                NameOrder::Greater => {
                    proof {
                        if self.dir_wf() && dir_sorted(es) {
                            assert forall|q: int| j <= q < count implies name_lt(
                                name@,
                                (#[trigger] self.dir_block(target_block as int)[q]).name,
                            ) by {
                                if q > j {
                                    self.lemma_entry_position(target_block as int, q);
                                    self.lemma_entry_position(target_block as int, j as int);
                                    assert(name_lt(es[base + j].name, es[base + q].name));
                                    lemma_name_lt_trans(
                                        name@,
                                        ename@,
                                        self.dir_block(target_block as int)[q].name,
                                    );
                                }
                            }
                        }
                    }
                    hi = j;
                },
            }
        }
        proof {
            if self.dir_wf() && dir_sorted(es) {
                if exists|p: int|
                    0 <= p < es.len() && (#[trigger] es[p]).name == name@ {
                    let p = choose|p: int| 0 <= p < es.len() && (#[trigger] es[p]).name == name@;
                    assert(base <= p < self.dir_entries_upto(target_block as int + 1).len());
                    assert(self.dir_entries_upto(target_block as int + 1)
                        == self.dir_entries_upto(target_block as int) + self.dir_block(
                        target_block as int,
                    ));
                    let j = p - base;
                    self.lemma_entry_position(target_block as int, j);
                    assert(self.dir_block(target_block as int)[j].name == name@);
                    lemma_name_order_total(self.dir_block(target_block as int)[j].name, name@);
                    assert(false);
                }
            }
        }
        Err(RafsError::NotFound)
    }
}

} // verus!
