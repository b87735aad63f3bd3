//! The chunk resolver: translates a byte-range read of a chunk-based regular
//! file into per-blob vectors of chunk I/O descriptors.
//!
//! The on-inode chunk-address array names, for each chunk-sized piece of the
//! file, the blob and chunk that store it. A read window is cut at chunk
//! boundaries; each piece becomes one descriptor, and consecutive
//! descriptors that target the same blob share one output vector.

use vstd::prelude::*;

verus! {

use crate::blob::{BlobIoDesc, BlobIoVec};
use crate::inode::{spec_inode_xattr_size, OndiskInodeWrapper};
use crate::layout::{
    chunk_addr_at, read_chunk_addr, spec_div_ceil, spec_format_clean, spec_layout, ChunkAddr,
    CHUNK_ADDR_SIZE, EROFS_INODE_CHUNK_BASED,
};
use crate::map::range_in;
use crate::{RafsError, RafsResult};

/// The smaller of two integers.
pub open spec fn spec_min(a: int, b: int) -> int {
    if a < b {
        a
    } else {
        b
    }
}

/// Sum of the byte counts of a descriptor run.
pub open spec fn spec_descs_total(s: Seq<BlobIoDesc>) -> int
    decreases s.len(),
{
    if s.len() == 0 {
        0
    } else {
        s[0].size + spec_descs_total(s.skip(1))
    }
}

/// The descriptors of one run of output vectors, in order.
pub open spec fn spec_flatten_iovecs(vs: Seq<BlobIoVec>) -> Seq<BlobIoDesc>
    decreases vs.len(),
{
    if vs.len() == 0 {
        Seq::empty()
    } else {
        vs[0].bi_vec@ + spec_flatten_iovecs(vs.skip(1))
    }
}

/// Appending one vector appends its descriptors.
pub proof fn lemma_flatten_push(vs: Seq<BlobIoVec>, v: BlobIoVec)
    ensures
        spec_flatten_iovecs(vs.push(v)) == spec_flatten_iovecs(vs) + v.bi_vec@,
    decreases vs.len(),
{
    if vs.len() == 0 {
        assert(vs.push(v)[0] == v);
        assert(vs.push(v).len() == 1);
        assert(vs.push(v).skip(1) =~= Seq::<BlobIoVec>::empty());
        assert(spec_flatten_iovecs(Seq::<BlobIoVec>::empty()) == Seq::<BlobIoDesc>::empty());
        assert(spec_flatten_iovecs(vs.push(v)) == vs.push(v)[0].bi_vec@ + spec_flatten_iovecs(
            vs.push(v).skip(1),
        ));
        assert(spec_flatten_iovecs(vs.push(v)) == v.bi_vec@ + Seq::<BlobIoDesc>::empty());
        assert(v.bi_vec@ + Seq::<BlobIoDesc>::empty() =~= v.bi_vec@);
        assert(spec_flatten_iovecs(vs) + v.bi_vec@ =~= v.bi_vec@);
    } else {
        assert(vs.push(v)[0] == vs[0]);
        assert(vs.push(v).skip(1) =~= vs.skip(1).push(v));
        lemma_flatten_push(vs.skip(1), v);
        assert(spec_flatten_iovecs(vs.push(v)) == vs[0].bi_vec@ + (spec_flatten_iovecs(vs.skip(1))
            + v.bi_vec@));
        assert(vs[0].bi_vec@ + (spec_flatten_iovecs(vs.skip(1)) + v.bi_vec@) =~= (vs[0].bi_vec@
            + spec_flatten_iovecs(vs.skip(1))) + v.bi_vec@);
    }
}


/// Every descriptor of a flattened run comes from some vector of the run.
pub proof fn lemma_flatten_index(vs: Seq<BlobIoVec>, q: int)
    requires
        0 <= q < spec_flatten_iovecs(vs).len(),
    ensures
        exists|g: int, p: int|
            0 <= g < vs.len() && 0 <= p < vs[g].bi_vec@.len() && spec_flatten_iovecs(vs)[q]
                == vs[g].bi_vec@[p],
    decreases vs.len(),
{
    if vs.len() > 0 {
        if q < vs[0].bi_vec@.len() {
            assert(spec_flatten_iovecs(vs)[q] == vs[0].bi_vec@[q]);
        } else {
            lemma_flatten_index(vs.skip(1), q - vs[0].bi_vec@.len());
            let (g0, p0) = choose|g: int, p: int|
                0 <= g < vs.skip(1).len() && 0 <= p < vs.skip(1)[g].bi_vec@.len()
                    && spec_flatten_iovecs(vs.skip(1))[q - vs[0].bi_vec@.len()] == vs.skip(1)[
                    g].bi_vec@[p];
            assert(vs.skip(1)[g0] == vs[g0 + 1]);
            assert(spec_flatten_iovecs(vs)[q] == vs[g0 + 1].bi_vec@[p0]);
        }
    }
}

impl OndiskInodeWrapper {
    /// Byte offset of the on-inode chunk-address array.
    pub open spec fn spec_chunk_base(&self) -> int {
        self.offset + spec_inode_xattr_size(self.disk)
    }

    /// Number of chunks of the file: `ceil(size / chunk_size)`.
    pub open spec fn spec_total_chunks(&self) -> int {
        spec_div_ceil(self.disk.size as int, self.meta().chunk_size as int)
    }

    /// The chunk-address record of chunk `i`.
    pub open spec fn spec_chunk_addr(&self, i: int) -> ChunkAddr {
        chunk_addr_at(self.bytes(), self.spec_chunk_base() + i * (CHUNK_ADDR_SIZE as int))
    }

    /// The chunk-address records from `head` on are contained in the mapping.
    pub open spec fn spec_chunk_addrs_in(&self, head: int) -> bool {
        range_in(
            self.bytes(),
            self.spec_chunk_base() + head * (CHUNK_ADDR_SIZE as int),
            (self.spec_total_chunks() - head) * (CHUNK_ADDR_SIZE as int),
        )
    }

    /// The descriptors for the tail of a read: `left` bytes remaining from
    /// chunk `i` on, each chunk contributing from its start.
    pub open spec fn spec_rest_descs(&self, left: int, i: int, user_io: bool) -> Seq<BlobIoDesc>
        decreases left,
    {
        let cs = self.meta().chunk_size as int;
        if left <= 0 || cs <= 0 {
            Seq::empty()
        } else {
            let cl = spec_min(cs, left);
            let a = self.spec_chunk_addr(i);
            seq![
                BlobIoDesc {
                    blob_index: a.blob_index,
                    chunk_index: a.blob_ci_index,
                    offset: 0,
                    size: cl as u32,
                    user_io,
                },
            ] + self.spec_rest_descs(left - cl, i + 1, user_io)
        }
    }

    /// The descriptor run of a read of `len` bytes at `offset`: the window
    /// `[offset, offset + len)` clipped to the file size, cut at chunk
    /// boundaries, each piece naming the chunk that holds it.
    pub open spec fn spec_alloc_descs(&self, offset: u64, len: u64, user_io: bool) -> Seq<
        BlobIoDesc,
    > {
        let cs = self.meta().chunk_size as int;
        let size = self.disk.size as int;
        let head = offset as int / cs;
        if head >= self.spec_total_chunks() {
            Seq::empty()
        } else {
            let left0 = spec_min(size - offset, len as int);
            let co = offset as int % cs;
            let first_cl = spec_min(cs - co, left0);
            let a = self.spec_chunk_addr(head);
            seq![
                BlobIoDesc {
                    blob_index: a.blob_index,
                    chunk_index: a.blob_ci_index,
                    offset: co as u32,
                    size: first_cl as u32,
                    user_io,
                },
            ] + self.spec_rest_descs(left0 - first_cl, head + 1, user_io)
        }
    }

    /// The tail descriptors cover exactly the remaining bytes, all from the
    /// start of their chunk.
    pub proof fn lemma_rest_coverage(&self, left: int, i: int, user_io: bool)
        requires
            self.meta().chunk_size > 0,
            left >= 0,
        ensures
            spec_descs_total(self.spec_rest_descs(left, i, user_io)) == left,
            forall|q: int|
                0 <= q < self.spec_rest_descs(left, i, user_io).len()
                    ==> (#[trigger] self.spec_rest_descs(left, i, user_io)[q]).offset == 0,
        decreases left,
    {
        let cs = self.meta().chunk_size as int;
        let ds = self.spec_rest_descs(left, i, user_io);
        if left > 0 {
            let cl = spec_min(cs, left);
            self.lemma_rest_coverage(left - cl, i + 1, user_io);
            assert(ds.skip(1) =~= self.spec_rest_descs(left - cl, i + 1, user_io));
        }
    }

    /// Chunk coverage: the descriptors of a read cover exactly the window
    /// `[offset, offset + len)` clipped to the file, in order — the first
    /// starts at the window's offset within its chunk, every later one at
    /// the start of its chunk, and the byte counts add up to the window.
    pub proof fn lemma_chunk_coverage(&self, offset: u64, len: u64, user_io: bool)
        requires
            self.meta().chunk_size > 0,
            offset <= self.disk.size,
        ensures
            spec_descs_total(self.spec_alloc_descs(offset, len, user_io)) == spec_min(
                self.disk.size - offset,
                len as int,
            ),
            self.spec_alloc_descs(offset, len, user_io).len() > 0 ==> self.spec_alloc_descs(
                offset,
                len,
                user_io,
            )[0].offset == offset as int % (self.meta().chunk_size as int),
            forall|q: int|
                0 < q < self.spec_alloc_descs(offset, len, user_io).len()
                    ==> (#[trigger] self.spec_alloc_descs(offset, len, user_io)[q]).offset == 0,
    {
        let cs = self.meta().chunk_size as int;
        let size = self.disk.size as int;
        let head = offset as int / cs;
        let total = self.spec_total_chunks();
        let ds = self.spec_alloc_descs(offset, len, user_io);
        if head >= total {
            // The window is empty: the head chunk exists only up to the last
            // chunk, so an offset past it must sit at the very end.
            assert(cs * total >= size) by (nonlinear_arith)
                requires
                    cs > 0,
                    total == spec_div_ceil(size, cs),
                    size >= 0,
            ;
            assert(cs * head <= offset) by (nonlinear_arith)
                requires
                    cs > 0,
                    head == offset as int / cs,
                    offset >= 0,
            ;
            assert(cs * head <= cs * total ==> head <= total || cs <= 0) by (nonlinear_arith);
            assert(offset == size) by (nonlinear_arith)
                requires
                    cs > 0,
                    head >= total,
                    cs * total >= size,
                    cs * head <= offset,
                    offset <= size,
            ;
        } else {
            let left0 = spec_min(size - offset, len as int);
            let co = offset as int % cs;
            let first_cl = spec_min(cs - co, left0);
            self.lemma_rest_coverage(left0 - first_cl, head + 1, user_io);
            assert(ds.skip(1) =~= self.spec_rest_descs(left0 - first_cl, head + 1, user_io));
        }
    }

    /// Allocate the per-blob I/O vectors for a read of `len` bytes at
    /// `offset` of a chunk-based regular file.
    ///
    /// The descriptors, flattened in order, are exactly the read's
    /// descriptor run; every vector is non-empty and uniform in its blob,
    /// and consecutive vectors target different blobs. The call succeeds
    /// exactly when the chunk-address records from the head chunk on are
    /// contained in the mapping and every named blob index is backed by the
    /// blob table; a window past the last chunk yields no vectors.
    #[verifier::loop_isolation(false)]
    #[verifier::rlimit(100)]
    pub fn alloc_bio_vecs(&self, offset: u64, len: u64, user_io: bool) -> (r: RafsResult<
        Vec<BlobIoVec>,
    >)
        requires
            self.wf(),
            self.meta().chunk_size > 0,
            spec_format_clean(self.disk.format),
            spec_layout(self.disk.format) == EROFS_INODE_CHUNK_BASED,
            offset <= self.disk.size,
        ensures
            r matches Ok(v) ==> {
                let ds = self.spec_alloc_descs(offset, len, user_io);
                &&& spec_flatten_iovecs(v@) == ds
                &&& forall|g: int| 0 <= g < v@.len() ==> (#[trigger] v@[g]).bi_vec@.len() > 0
                &&& forall|g: int, q: int|
                    0 <= g < v@.len() && 0 <= q < v@[g].bi_vec@.len() ==> (#[trigger] v@[g].bi_vec@[
                        q]).blob_index == v@[g].blob_index
                &&& forall|g: int|
                    0 < g < v@.len() ==> (#[trigger] v@[g]).blob_index != v@[g - 1].blob_index
            },
            r is Ok <==> (self.spec_alloc_descs(offset, len, user_io).len() == 0 || (
            self.spec_chunk_addrs_in(offset as int / (self.meta().chunk_size as int)) && forall|
                q: int,
            |
                0 <= q < self.spec_alloc_descs(offset, len, user_io).len() ==> (
                #[trigger] self.spec_alloc_descs(offset, len, user_io)[q]).blob_index
                    < self.state@.blobs.len())),
    {
        let map_len = self.state.map.len();
        let cs = self.chunk_size() as u64;
        let head = offset / cs;
        let total = div_ceil_u64_local(self.disk.size, cs);
        let mut out: Vec<BlobIoVec> = Vec::new();
        let ghost ds = self.spec_alloc_descs(offset, len, user_io);
        if head >= total {
            proof {
                assert(ds.len() == 0);
            }
            return Ok(out);
        }
        let base0 = match self.chunk_array_offset(head) {
            Ok(b) => b,
            Err(e) => {
                return Err(e);
            },
        };
        let tail_u64 = match (total - head).checked_mul(CHUNK_ADDR_SIZE as u64) {
            Some(v) => v,
            None => {
                proof {
                    assert((self.spec_total_chunks() - head) * (CHUNK_ADDR_SIZE as int)
                        > u64::MAX);
                }
                return Err(RafsError::InvalidData);
            },
        };
        if tail_u64 > usize::MAX as u64 {
            return Err(RafsError::InvalidData);
        }
        if self.state.map.validate_range(base0, tail_u64 as usize).is_err() {
            return Err(RafsError::InvalidData);
        }
        proof {
            assert(self.spec_chunk_addrs_in(head as int));
            self.lemma_addrs_sub(head as int, 0);
        }
        let a0 = match read_chunk_addr(&self.state.map, base0) {
            Ok(a) => a,
            Err(_) => vstd::pervasive::unreached(),
        };
        let left0_u64: u64 = {
            let avail = self.disk.size - offset;
            if avail < len {
                avail
            } else {
                len
            }
        };
        let co = (offset % cs) as u32;
        let first_cl: u64 = {
            let room = cs - (offset % cs);
            if room < left0_u64 {
                room
            } else {
                left0_u64
            }
        };
        let blob_count = self.state.blob_table.len();
        if a0.blob_index as usize >= blob_count {
            proof {
                assert(ds[0].blob_index == a0.blob_index);
            }
            return Err(RafsError::InvalidData);
        }
        let first = BlobIoDesc {
            blob_index: a0.blob_index,
            chunk_index: a0.blob_ci_index,
            offset: co,
            size: first_cl as u32,
            user_io,
        };
        let mut cur = BlobIoVec { blob_index: a0.blob_index, bi_vec: Vec::new() };
        cur.bi_vec.push(first);
        let mut left: u64 = left0_u64 - first_cl;
        let mut i: u64 = head + 1;
        let mut aoff: usize = base0 + CHUNK_ADDR_SIZE;
        proof {
            assert(ds[0] == first);
            assert(ds.skip(1) =~= self.spec_rest_descs(left as int, i as int, user_io));
            if left > 0 {
                let q = offset as int / (cs as int);
                let rr = offset as int % (cs as int);
                vstd::arithmetic::div_mod::lemma_fundamental_div_mod(offset as int, cs as int);
                assert(left as int <= self.disk.size as int - (i as int) * (cs as int)) by (
                nonlinear_arith)
                    requires
                        cs as int > 0,
                        offset as int == (cs as int) * q + rr,
                        head as int == q,
                        i as int == q + 1,
                        left as int == left0_u64 as int - first_cl as int,
                        left0_u64 as int <= self.disk.size as int - offset as int,
                        first_cl as int == (cs as int) - rr,
                ;
            }
        }
        while left > 0
            invariant
                left > 0 ==> left <= self.disk.size - i * cs,
                i > head,
                aoff == base0 + (i - head) * (CHUNK_ADDR_SIZE as int),
                cur.bi_vec@.len() > 0,
                (cur.blob_index as int) < self.state@.blobs.len(),
                forall|g: int|
                    0 <= g < out@.len() ==> ((#[trigger] out@[g]).blob_index as int)
                        < self.state@.blobs.len(),
                forall|q: int|
                    0 <= q < cur.bi_vec@.len() ==> (#[trigger] cur.bi_vec@[q]).blob_index
                        == cur.blob_index,
                forall|g: int| 0 <= g < out@.len() ==> (#[trigger] out@[g]).bi_vec@.len() > 0,
                forall|g: int, q: int|
                    0 <= g < out@.len() && 0 <= q < out@[g].bi_vec@.len() ==> (
                    #[trigger] out@[g].bi_vec@[q]).blob_index == out@[g].blob_index,
                forall|g: int|
                    0 < g < out@.len() ==> (#[trigger] out@[g]).blob_index != out@[g
                        - 1].blob_index,
                out@.len() > 0 ==> out@[out@.len() - 1].blob_index != cur.blob_index,
                spec_flatten_iovecs(out@) + cur.bi_vec@ + self.spec_rest_descs(
                    left as int,
                    i as int,
                    user_io,
                ) == ds,
            decreases left,
        {
            proof {
                assert(i * cs < self.disk.size);
                assert(i < self.spec_total_chunks()) by (nonlinear_arith)
                    requires
                        cs > 0,
                        (i as int) * (cs as int) < self.disk.size as int,
                        self.spec_total_chunks() == spec_div_ceil(
                            self.disk.size as int,
                            cs as int,
                        ),
                ;
                self.lemma_addrs_sub(head as int, i as int - head as int);
                assert((head as int) * (CHUNK_ADDR_SIZE as int) + ((i as int) - (head as int)) * (
                CHUNK_ADDR_SIZE as int) == (i as int) * (CHUNK_ADDR_SIZE as int)) by (
                nonlinear_arith);
            }
            let a = match read_chunk_addr(&self.state.map, aoff) {
                Ok(a) => a,
                Err(_) => vstd::pervasive::unreached(),
            };
            let cl: u64 = if cs < left {
                cs
            } else {
                left
            };
            proof {
                self.lemma_rest_first(left as int, i as int, user_io);
            }
            if a.blob_index as usize >= blob_count {
                proof {
                    let rest = self.spec_rest_descs(left as int, i as int, user_io);
                    let pos = ds.len() - rest.len();
                    assert(ds[pos as int] == rest[0]);
                }
                return Err(RafsError::InvalidData);
            }
            let desc = BlobIoDesc {
                blob_index: a.blob_index,
                chunk_index: a.blob_ci_index,
                offset: 0,
                size: cl as u32,
                user_io,
            };
            proof {
                assert(self.spec_rest_descs(left as int, i as int, user_io)[0] == desc);
                assert(self.spec_rest_descs(left as int, i as int, user_io).skip(1)
                    =~= self.spec_rest_descs(left as int - cl as int, i as int + 1, user_io));
            }
            if desc.blob_index != cur.blob_index {
                let done = cur;
                proof {
                    lemma_flatten_push(out@, done);
                }
                out.push(done);
                cur = BlobIoVec { blob_index: desc.blob_index, bi_vec: Vec::new() };
            }
            cur.bi_vec.push(desc);
            left = left - cl;
            i = i + 1;
            aoff = aoff + CHUNK_ADDR_SIZE;
            proof {
                assert((i as int) * (cs as int) == ((i as int) - 1) * (cs as int) + (cs as int))
                    by (nonlinear_arith);
                assert(((i as int) - (head as int)) * (CHUNK_ADDR_SIZE as int) == ((i as int) - 1
                    - (head as int)) * (CHUNK_ADDR_SIZE as int) + (CHUNK_ADDR_SIZE as int)) by (
                nonlinear_arith);
                assert(spec_flatten_iovecs(out@) + cur.bi_vec@ + self.spec_rest_descs(
                    left as int,
                    i as int,
                    user_io,
                ) =~= ds);
            }
        }
        proof {
            lemma_flatten_push(out@, cur);
            assert(spec_flatten_iovecs(out@) + cur.bi_vec@ + Seq::<BlobIoDesc>::empty()
                =~= spec_flatten_iovecs(out@) + cur.bi_vec@);
        }
        out.push(cur);
        proof {
            assert forall|q: int| 0 <= q < ds.len() implies ((#[trigger] ds[q]).blob_index as int)
                < self.state@.blobs.len() by {
                assert(spec_flatten_iovecs(out@) == ds);
                lemma_flatten_index(out@, q);
                let (g0, p0) = choose|g: int, p: int|
                    0 <= g < out@.len() && 0 <= p < out@[g].bi_vec@.len() && spec_flatten_iovecs(
                        out@,
                    )[q] == out@[g].bi_vec@[p];
                assert(out@[g0].bi_vec@[p0].blob_index == out@[g0].blob_index);
            }
        }
        Ok(out)
    }

    /// Byte offset of chunk-address record `i`, or `InvalidData` when it
    /// cannot even be addressed.
    pub(crate) fn chunk_array_offset(&self, i: u64) -> (r: RafsResult<usize>)
        requires
            self.wf(),
        ensures
            r matches Ok(v) ==> v == self.spec_chunk_base() + i * (CHUNK_ADDR_SIZE as int),
            r is Ok <==> self.spec_chunk_base() + i * (CHUNK_ADDR_SIZE as int) + (
            CHUNK_ADDR_SIZE as int) <= usize::MAX,
    {
        let map_len = self.state.map.len();
        let rec = match i.checked_mul(CHUNK_ADDR_SIZE as u64) {
            Some(v) => v,
            None => {
                proof {
                    assert(i * (CHUNK_ADDR_SIZE as int) > u64::MAX);
                }
                return Err(RafsError::InvalidData);
            },
        };
        let ix = match (self.offset as u64).checked_add(self.inode_xattr_size() as u64) {
            Some(v) => v,
            None => {
                return Err(RafsError::InvalidData);
            },
        };
        let base_u64 = match ix.checked_add(rec) {
            Some(v) => v,
            None => {
                return Err(RafsError::InvalidData);
            },
        };
        if base_u64 > usize::MAX as u64 - CHUNK_ADDR_SIZE as u64 {
            return Err(RafsError::InvalidData);
        }
        Ok(base_u64 as usize)
    }

    /// Containment of the whole chunk-address tail gives containment of each
    /// record in it.
    proof fn lemma_addrs_sub(&self, head: int, d: int)
        requires
            0 <= head,
            0 <= d,
            head + d < self.spec_total_chunks(),
            self.spec_chunk_addrs_in(head),
        ensures
            range_in(
                self.bytes(),
                self.spec_chunk_base() + (head + d) * (CHUNK_ADDR_SIZE as int),
                CHUNK_ADDR_SIZE as int,
            ),
    {
        let base = self.spec_chunk_base();
        let total = self.spec_total_chunks();
        assert((head + d) * 8 + 8 <= head * 8 + (total - head) * 8 && head * 8 <= (head + d)
            * 8) by (nonlinear_arith)
            requires
                0 <= head,
                0 <= d,
                head + d < total,
        ;
    }

    /// The head descriptor of a non-empty tail names chunk `i`.
    proof fn lemma_rest_first(&self, left: int, i: int, user_io: bool)
        requires
            self.meta().chunk_size > 0,
            left > 0,
        ensures
            self.spec_rest_descs(left, i, user_io).len() > 0,
            self.spec_rest_descs(left, i, user_io)[0].blob_index == self.spec_chunk_addr(
                i,
            ).blob_index,
            self.spec_rest_descs(left, i, user_io)[0].chunk_index == self.spec_chunk_addr(
                i,
            ).blob_ci_index,
            self.spec_rest_descs(left, i, user_io)[0].size == spec_min(
                self.meta().chunk_size as int,
                left,
            ),
            self.spec_rest_descs(left, i, user_io)[0].offset == 0,
    {
    }
}

/// `ceil(x / b)` on u64 values; a local copy keeps the resolver's arithmetic
/// in one place.
fn div_ceil_u64_local(x: u64, b: u64) -> (r: u64)
    requires
        b > 0,
    ensures
        r == spec_div_ceil(x as int, b as int),
{
    crate::layout::div_ceil_u64(x, b)
}

} // verus!
