//! The inline xattr reader: walks the xattr body stored right after an inode
//! record, recovers namespace prefixes, and serves lookup and listing.
//!
//! The body is a header followed by packed records; each record holds a
//! namespace code, a name suffix and a value, padded to 4-byte alignment.
//! The module defines the record list of an inode and proves that lookup
//! returns the first record whose full name matches — which is what ties
//! `get_xattrs` and `get_xattr` together.

use vstd::prelude::*;

verus! {

use crate::inode::OndiskInodeWrapper;
use crate::layout::{
    spec_round_up, xattr_entry_at, read_xattr_entry, XATTR_ENTRY_SIZE, XATTR_HEADER_SIZE,
};
use crate::map::range_in;
use crate::names::{compare_names, NameOrder};
use crate::{RafsError, RafsResult};

/// Namespace code of attributes without a prefix.
pub const XATTR_NS_NONE: u8 = 0;

/// Namespace code of the `user.` prefix.
pub const XATTR_NS_USER: u8 = 1;

/// Namespace code of the `system.` prefix.
pub const XATTR_NS_SYSTEM: u8 = 2;

/// Namespace code of the `trusted.` prefix.
pub const XATTR_NS_TRUSTED: u8 = 4;

/// Namespace code of the `security.` prefix.
pub const XATTR_NS_SECURITY: u8 = 6;

/// Mathematical view of one extended attribute: full name and value.
pub ghost struct XattrView {
    /// The full attribute name, prefix included.
    pub name: Seq<u8>,
    /// The attribute's value bytes.
    pub value: Seq<u8>,
}

/// The namespace prefix a code selects, or nothing for an unknown code.
pub open spec fn spec_ns_prefix(code: u8) -> Option<Seq<u8>> {
    if code == XATTR_NS_NONE {
        Some(Seq::empty())
    } else if code == XATTR_NS_USER {
        Some(seq!['u' as u8, 's' as u8, 'e' as u8, 'r' as u8, '.' as u8])
    } else if code == XATTR_NS_SYSTEM {
        Some(seq!['s' as u8, 'y' as u8, 's' as u8, 't' as u8, 'e' as u8, 'm' as u8, '.' as u8])
    } else if code == XATTR_NS_TRUSTED {
        Some(
            seq![
                't' as u8,
                'r' as u8,
                'u' as u8,
                's' as u8,
                't' as u8,
                'e' as u8,
                'd' as u8,
                '.' as u8,
            ],
        )
    } else if code == XATTR_NS_SECURITY {
        Some(
            seq![
                's' as u8,
                'e' as u8,
                'c' as u8,
                'u' as u8,
                'r' as u8,
                'i' as u8,
                't' as u8,
                'y' as u8,
                '.' as u8,
            ],
        )
    } else {
        None
    }
}

/// Bytes one record occupies: its header, name suffix and value, padded to
/// the record alignment.
pub open spec fn spec_xattr_step(name_len: u8, value_size: u16) -> int {
    spec_round_up(XATTR_ENTRY_SIZE + name_len + value_size, XATTR_ENTRY_SIZE as int)
}

/// Local well-formedness of the record at `off` with `rem` bytes of entry
/// slots left: the record and its payload are contained in the mapping, its
/// namespace code is known, and its padded extent fits in the remainder.
pub open spec fn xattr_rec_ok(b: Seq<u8>, off: int, rem: int) -> bool {
    let e = xattr_entry_at(b, off);
    &&& range_in(b, off, XATTR_ENTRY_SIZE as int)
    &&& spec_ns_prefix(e.name_index) is Some
    &&& range_in(b, off + XATTR_ENTRY_SIZE, e.name_len + e.value_size)
    &&& XATTR_ENTRY_SIZE as int <= spec_xattr_step(e.name_len, e.value_size) <= rem
}

/// Well-formedness of the whole record walk from `off` with `rem` bytes left.
pub open spec fn xattrs_wf(b: Seq<u8>, off: int, rem: int) -> bool
    decreases rem,
{
    rem <= 0 || {
        let e = xattr_entry_at(b, off);
        let step = spec_xattr_step(e.name_len, e.value_size);
        xattr_rec_ok(b, off, rem) && xattrs_wf(b, off + step, rem - step)
    }
}

/// The record at `off`: namespace prefix joined with the in-place suffix,
/// and the value bytes.
pub open spec fn xattr_rec_at(b: Seq<u8>, off: int) -> XattrView {
    let e = xattr_entry_at(b, off);
    XattrView {
        name: spec_ns_prefix(e.name_index)->Some_0 + b.subrange(
            off + XATTR_ENTRY_SIZE,
            off + XATTR_ENTRY_SIZE + e.name_len,
        ),
        value: b.subrange(
            off + XATTR_ENTRY_SIZE + e.name_len,
            off + XATTR_ENTRY_SIZE + e.name_len + e.value_size,
        ),
    }
}

/// The record list of the walk from `off` with `rem` bytes left.
pub open spec fn xattr_records(b: Seq<u8>, off: int, rem: int) -> Seq<XattrView>
    decreases rem,
{
    if rem <= 0 || !xattr_rec_ok(b, off, rem) {
        Seq::empty()
    } else {
        let e = xattr_entry_at(b, off);
        let step = spec_xattr_step(e.name_len, e.value_size);
        seq![xattr_rec_at(b, off)] + xattr_records(b, off + step, rem - step)
    }
}

/// The value of the first record whose full name is `name`, if any.
pub open spec fn spec_xattr_lookup(recs: Seq<XattrView>, name: Seq<u8>) -> Option<Seq<u8>>
    decreases recs.len(),
{
    if recs.len() == 0 {
        None
    } else if recs[0].name == name {
        Some(recs[0].value)
    } else {
        spec_xattr_lookup(recs.skip(1), name)
    }
}

/// Every name a listing returns can be looked up: for each record of the
/// list, lookup by its name succeeds and returns the value of the first
/// record carrying that name.
pub proof fn lemma_xattr_roundtrip(recs: Seq<XattrView>, i: int)
    requires
        0 <= i < recs.len(),
    ensures
        spec_xattr_lookup(recs, recs[i].name) is Some,
        exists|j: int|
            0 <= j <= i && recs[j].name == recs[i].name && spec_xattr_lookup(recs, recs[i].name)
                == Some(recs[j].value),
    decreases recs.len(),
{
    if recs[0].name == recs[i].name {
        assert(spec_xattr_lookup(recs, recs[i].name) == Some(recs[0].value));
    } else {
        lemma_xattr_roundtrip(recs.skip(1), i - 1);
        assert(recs.skip(1)[i - 1] == recs[i]);
        let j0 = choose|j: int|
            0 <= j <= i - 1 && recs.skip(1)[j].name == recs.skip(1)[i - 1].name
                && spec_xattr_lookup(recs.skip(1), recs.skip(1)[i - 1].name) == Some(
                recs.skip(1)[j].value,
            );
        assert(recs.skip(1)[j0] == recs[j0 + 1]);
        assert(0 <= j0 + 1 <= i && recs[j0 + 1].name == recs[i].name && spec_xattr_lookup(
            recs,
            recs[i].name,
        ) == Some(recs[j0 + 1].value));
    }
}

/// The namespace prefix bytes a code selects, or `InvalidData` for an
/// unknown code.
pub fn recover_namespace(code: u8) -> (r: RafsResult<Vec<u8>>)
    ensures
        r is Ok <==> spec_ns_prefix(code) is Some,
        r matches Ok(v) ==> Some(v@) == spec_ns_prefix(code),
{
    let mut v: Vec<u8> = Vec::new();
    if code == XATTR_NS_NONE {
        proof {
            assert(v@ =~= spec_ns_prefix(code)->Some_0);
        }
        Ok(v)
    } else if code == XATTR_NS_USER {
        v.push('u' as u8);
        v.push('s' as u8);
        v.push('e' as u8);
        v.push('r' as u8);
        v.push('.' as u8);
        proof {
            assert(v@ =~= spec_ns_prefix(code)->Some_0);
        }
        Ok(v)
    } else if code == XATTR_NS_SYSTEM {
        v.push('s' as u8);
        v.push('y' as u8);
        v.push('s' as u8);
        v.push('t' as u8);
        v.push('e' as u8);
        v.push('m' as u8);
        v.push('.' as u8);
        proof {
            assert(v@ =~= spec_ns_prefix(code)->Some_0);
        }
        Ok(v)
    } else if code == XATTR_NS_TRUSTED {
        v.push('t' as u8);
        v.push('r' as u8);
        v.push('u' as u8);
        v.push('s' as u8);
        v.push('t' as u8);
        v.push('e' as u8);
        v.push('d' as u8);
        v.push('.' as u8);
        proof {
            assert(v@ =~= spec_ns_prefix(code)->Some_0);
        }
        Ok(v)
    } else if code == XATTR_NS_SECURITY {
        v.push('s' as u8);
        v.push('e' as u8);
        v.push('c' as u8);
        v.push('u' as u8);
        v.push('r' as u8);
        v.push('i' as u8);
        v.push('t' as u8);
        v.push('y' as u8);
        v.push('.' as u8);
        proof {
            assert(v@ =~= spec_ns_prefix(code)->Some_0);
        }
        Ok(v)
    } else {
        Err(RafsError::InvalidData)
    }
}

impl OndiskInodeWrapper {
    /// Byte offset of the first xattr record of this inode.
    pub open spec fn spec_xattr_start(&self) -> int {
        self.offset + crate::layout::spec_inode_size(self.disk.format) + (
        XATTR_HEADER_SIZE as int)
    }

    /// Bytes of entry slots the inline xattr body declares.
    pub open spec fn spec_xattr_rem(&self) -> int {
        if self.disk.xattr_count == 0 {
            0
        } else {
            (self.disk.xattr_count - 1) * (XATTR_ENTRY_SIZE as int)
        }
    }

    /// The record list of this inode's inline xattr body.
    pub open spec fn spec_xattrs(&self) -> Seq<XattrView> {
        xattr_records(self.bytes(), self.spec_xattr_start(), self.spec_xattr_rem())
    }

    /// Well-formedness of this inode's inline xattr body.
    pub open spec fn spec_xattrs_wf(&self) -> bool {
        xattrs_wf(self.bytes(), self.spec_xattr_start(), self.spec_xattr_rem())
    }

    /// The value of the extended attribute named `name`.
    ///
    /// Succeeds exactly on a well-formed xattr body holding a record whose
    /// full (prefix plus suffix) name matches, and returns the first such
    /// record's value; a name no record carries is `NotFound`.
    pub fn get_xattr(&self, name: &[u8]) -> (r: RafsResult<Vec<u8>>)
        requires
            self.wf(),
        ensures
            r is Ok <==> (self.spec_xattrs_wf() && spec_xattr_lookup(
                self.spec_xattrs(),
                name@,
            ) is Some),
            r matches Ok(v) ==> spec_xattr_lookup(self.spec_xattrs(), name@) == Some(v@),
            self.spec_xattrs_wf() && spec_xattr_lookup(self.spec_xattrs(), name@) is None ==> r
                == Err::<Vec<u8>, _>(RafsError::NotFound),
    {
        let map_len = self.state.map.len();
        if self.disk.xattr_count <= 1 {
            proof {
                assert(self.spec_xattrs().len() == 0);
                assert(spec_xattr_lookup(self.spec_xattrs(), name@) is None);
            }
            return Err(RafsError::NotFound);
        }
        let mut off: usize = self.offset + self.inode_size() + XATTR_HEADER_SIZE;
        let mut rem: usize = (self.disk.xattr_count as usize - 1) * XATTR_ENTRY_SIZE;
        let mut found: Option<Vec<u8>> = None;
        proof {
            assert(off == self.spec_xattr_start() && rem == self.spec_xattr_rem());
        }
        while rem > 0
            invariant
                self.bytes().len() <= usize::MAX,
                self.spec_xattrs_wf() <==> xattrs_wf(self.bytes(), off as int, rem as int),
                match found {
                    Some(v) => spec_xattr_lookup(self.spec_xattrs(), name@) == Some(v@),
                    None => spec_xattr_lookup(self.spec_xattrs(), name@) == spec_xattr_lookup(
                        xattr_records(self.bytes(), off as int, rem as int),
                        name@,
                    ),
                },
            decreases rem,
        {
            let e = match read_xattr_entry(&self.state.map, off) {
                Ok(e) => e,
                Err(_) => {
                    return Err(RafsError::InvalidData);
                },
            };
            let prefix = recover_namespace(e.name_index)?;
            let payload = e.name_len as usize + e.value_size as usize;
            self.state.map.validate_range(off + XATTR_ENTRY_SIZE, payload)?;
            let step = match crate::layout::round_up_usize(
                XATTR_ENTRY_SIZE + payload,
                XATTR_ENTRY_SIZE,
            ) {
                Ok(s) => s,
                Err(_) => {
                    return Err(RafsError::InvalidData);
                },
            };
            if step > rem {
                return Err(RafsError::InvalidData);
            }
            proof {
                assert(xattr_rec_ok(self.bytes(), off as int, rem as int));
                assert(xattr_records(self.bytes(), off as int, rem as int)[0] == xattr_rec_at(
                    self.bytes(),
                    off as int,
                ));
            }
            if found.is_none() {
                let suffix = self.state.map.get_slice(
                    off + XATTR_ENTRY_SIZE,
                    e.name_len as usize,
                )?;
                let mut full = prefix;
                let mut suffix_vec = vstd::slice::slice_to_vec(suffix);
                full.append(&mut suffix_vec);
                proof {
                    assert(full@ =~= xattr_rec_at(self.bytes(), off as int).name);
                }
                if matches!(compare_names(full.as_slice(), name), NameOrder::Equal) {
                    let value = self.state.map.copy_slice(
                        off + XATTR_ENTRY_SIZE + e.name_len as usize,
                        e.value_size as usize,
                    )?;
                    proof {
                        assert(value@ == xattr_rec_at(self.bytes(), off as int).value);
                    }
                    found = Some(value);
                }
            }
            proof {
                let recs = xattr_records(self.bytes(), off as int, rem as int);
                let step_i = spec_xattr_step(e.name_len, e.value_size);
                assert(recs.skip(1) =~= xattr_records(
                    self.bytes(),
                    off as int + step_i,
                    rem as int - step_i,
                ));
            }
            let new_rem = rem - step;
            if new_rem == 0 {
                proof {
                    assert(xattrs_wf(
                        self.bytes(),
                        off as int + spec_xattr_step(e.name_len, e.value_size),
                        0,
                    ));
                }
                rem = 0;
            } else {
                let new_off = match off.checked_add(step) {
                    Some(v) => v,
                    None => {
                        proof {
                            let step_i = spec_xattr_step(e.name_len, e.value_size);
                            if xattrs_wf(self.bytes(), off as int, rem as int) {
                                assert(xattrs_wf(
                                    self.bytes(),
                                    off as int + step_i,
                                    rem as int - step_i,
                                ));
                                assert(xattr_rec_ok(
                                    self.bytes(),
                                    off as int + step_i,
                                    rem as int - step_i,
                                ));
                                assert(off as int + step_i + (XATTR_ENTRY_SIZE as int)
                                    <= self.bytes().len());
                            }
                        }
                        return Err(RafsError::InvalidData);
                    },
                };
                off = new_off;
                rem = new_rem;
            }
        }
        match found {
            Some(v) => Ok(v),
            None => Err(RafsError::NotFound),
        }
    }

    /// The full names of all extended attributes of the inode, in record
    /// order.
    ///
    /// Succeeds exactly on a well-formed xattr body.
    #[verifier::spinoff_prover]
    #[verifier::rlimit(30)]
    pub fn get_xattrs(&self) -> (r: RafsResult<Vec<Vec<u8>>>)
        requires
            self.wf(),
        ensures
            r is Ok <==> self.spec_xattrs_wf(),
            r matches Ok(v) ==> {
                &&& v@.len() == self.spec_xattrs().len()
                &&& forall|i: int| 0 <= i < v@.len() ==> v@[i]@ == self.spec_xattrs()[i].name
            },
    {
        let map_len = self.state.map.len();
        let mut out: Vec<Vec<u8>> = Vec::new();
        if self.disk.xattr_count <= 1 {
            return Ok(out);
        }
        let mut off: usize = self.offset + self.inode_size() + XATTR_HEADER_SIZE;
        let mut rem: usize = (self.disk.xattr_count as usize - 1) * XATTR_ENTRY_SIZE;
        proof {
            assert(off == self.spec_xattr_start() && rem == self.spec_xattr_rem());
            assert(self.spec_xattrs().skip(0) =~= self.spec_xattrs());
        }
        while rem > 0
            invariant
                self.bytes().len() <= usize::MAX,
                self.spec_xattrs_wf() <==> xattrs_wf(self.bytes(), off as int, rem as int),
                out@.len() <= self.spec_xattrs().len(),
                xattr_records(self.bytes(), off as int, rem as int) == self.spec_xattrs().skip(
                    out@.len() as int,
                ),
                forall|i: int| 0 <= i < out@.len() ==> out@[i]@ == self.spec_xattrs()[i].name,
            decreases rem,
        {
            let e = match read_xattr_entry(&self.state.map, off) {
                Ok(e) => e,
                Err(_) => {
                    return Err(RafsError::InvalidData);
                },
            };
            let prefix = recover_namespace(e.name_index)?;
            let payload = e.name_len as usize + e.value_size as usize;
            self.state.map.validate_range(off + XATTR_ENTRY_SIZE, payload)?;
            let step = match crate::layout::round_up_usize(
                XATTR_ENTRY_SIZE + payload,
                XATTR_ENTRY_SIZE,
            ) {
                Ok(s) => s,
                Err(_) => {
                    return Err(RafsError::InvalidData);
                },
            };
            if step > rem {
                return Err(RafsError::InvalidData);
            }
            proof {
                assert(xattr_rec_ok(self.bytes(), off as int, rem as int));
                assert(xattr_records(self.bytes(), off as int, rem as int)[0] == xattr_rec_at(
                    self.bytes(),
                    off as int,
                ));
            }
            let suffix = self.state.map.get_slice(off + XATTR_ENTRY_SIZE, e.name_len as usize)?;
            let mut full = prefix;
            let mut suffix_vec = vstd::slice::slice_to_vec(suffix);
            full.append(&mut suffix_vec);
            proof {
                assert(full@ =~= xattr_rec_at(self.bytes(), off as int).name);
                let recs = xattr_records(self.bytes(), off as int, rem as int);
                let step_i = spec_xattr_step(e.name_len, e.value_size);
                assert(recs.skip(1) =~= xattr_records(
                    self.bytes(),
                    off as int + step_i,
                    rem as int - step_i,
                ));
                assert(self.spec_xattrs().skip(out@.len() as int).skip(1) =~= self.spec_xattrs(
                ).skip(out@.len() as int + 1));
                assert(self.spec_xattrs()[out@.len() as int] == recs[0]);
            }
            out.push(full);
            let new_rem = rem - step;
            if new_rem == 0 {
                proof {
                    assert(xattrs_wf(
                        self.bytes(),
                        off as int + spec_xattr_step(e.name_len, e.value_size),
                        0,
                    ));
                }
                rem = 0;
            } else {
                let new_off = match off.checked_add(step) {
                    Some(v) => v,
                    None => {
                        proof {
                            let step_i = spec_xattr_step(e.name_len, e.value_size);
                            if xattrs_wf(self.bytes(), off as int, rem as int) {
                                assert(xattrs_wf(
                                    self.bytes(),
                                    off as int + step_i,
                                    rem as int - step_i,
                                ));
                                assert(xattr_rec_ok(
                                    self.bytes(),
                                    off as int + step_i,
                                    rem as int - step_i,
                                ));
                                assert(off as int + step_i + (XATTR_ENTRY_SIZE as int)
                                    <= self.bytes().len());
                            }
                        }
                        return Err(RafsError::InvalidData);
                    },
                };
                off = new_off;
                rem = new_rem;
            }
        }
        Ok(out)
    }
}

} // verus!
