//! Bytewise ordering of entry names.
//!
//! Directory blocks store entries sorted by name in plain byte order; the
//! lookup paths binary-search on that order. This module defines the order on
//! byte sequences, proves that it is total, and provides the executable
//! three-way comparison the searches use.

use vstd::prelude::*;

verus! {

use vstd::slice::slice_index_get;

/// Result of a three-way name comparison.
#[derive(Clone, Copy, Debug, PartialEq, Eq, Structural)]
pub enum NameOrder {
    /// The first name sorts strictly before the second.
    Less,
    /// The names are byte-for-byte equal.
    Equal,
    /// The first name sorts strictly after the second.
    Greater,
}

/// Strict bytewise (lexicographic) order on names.
pub open spec fn name_lt(a: Seq<u8>, b: Seq<u8>) -> bool
    decreases a.len(),
{
    if b.len() == 0 {
        false
    } else if a.len() == 0 {
        true
    } else if a[0] < b[0] {
        true
    } else if a[0] > b[0] {
        false
    } else {
        name_lt(a.skip(1), b.skip(1))
    }
}

/// No name sorts strictly before itself.
pub proof fn lemma_name_lt_irrefl(a: Seq<u8>)
    ensures
        !name_lt(a, a),
    decreases a.len(),
{
    if a.len() > 0 {
        lemma_name_lt_irrefl(a.skip(1));
    }
}

/// Any two names are ordered: one sorts before the other or they are equal,
/// and those three outcomes exclude each other.
pub proof fn lemma_name_order_total(a: Seq<u8>, b: Seq<u8>)
    ensures
        name_lt(a, b) || name_lt(b, a) || a == b,
        !(name_lt(a, b) && name_lt(b, a)),
        name_lt(a, b) ==> a != b,
        name_lt(b, a) ==> a != b,
    decreases a.len(),
{
    lemma_name_lt_irrefl(a);
    lemma_name_lt_irrefl(b);
    if a.len() > 0 && b.len() > 0 && a[0] == b[0] {
        lemma_name_order_total(a.skip(1), b.skip(1));
        if a.skip(1) == b.skip(1) {
            assert forall|j: int| 0 <= j < a.len() implies a[j] == b[j] by {
                if j > 0 {
                    assert(a[j] == a.skip(1)[j - 1]);
                    assert(b[j] == b.skip(1)[j - 1]);
                }
            }
            assert(a =~= b);
        }
    }
}

/// The strict order is transitive.
pub proof fn lemma_name_lt_trans(a: Seq<u8>, b: Seq<u8>, c: Seq<u8>)
    requires
        name_lt(a, b),
        name_lt(b, c),
    ensures
        name_lt(a, c),
    decreases a.len(),
{
    if a.len() > 0 && c.len() > 0 && a[0] == c[0] {
        if a[0] == b[0] && b[0] == c[0] {
            lemma_name_lt_trans(a.skip(1), b.skip(1), c.skip(1));
        }
    }
}

/// Dropping an equal prefix of both names does not change their order.
pub proof fn lemma_name_lt_skip_prefix(a: Seq<u8>, b: Seq<u8>, i: int)
    requires
        0 <= i <= a.len(),
        i <= b.len(),
        forall|j: int| 0 <= j < i ==> a[j] == b[j],
    ensures
        name_lt(a, b) == name_lt(a.skip(i), b.skip(i)),
    decreases i,
{
    if i > 0 {
        assert(a.len() > 0 && b.len() > 0 && a[0] == b[0]);
        assert(name_lt(a, b) == name_lt(a.skip(1), b.skip(1)));
        let a1 = a.skip(1);
        let b1 = b.skip(1);
        assert(forall|j: int| 0 <= j < i - 1 ==> a1[j] == b1[j]);
        lemma_name_lt_skip_prefix(a1, b1, i - 1);
        assert(a1.skip(i - 1) =~= a.skip(i));
        assert(b1.skip(i - 1) =~= b.skip(i));
    } else {
        assert(a.skip(0) =~= a);
        assert(b.skip(0) =~= b);
    }
}

/// Length of a NUL-padded field: the bytes before the first NUL.
pub open spec fn cstr_len(s: Seq<u8>) -> int
    decreases s.len(),
{
    if s.len() == 0 {
        0
    } else if s[0] == 0 {
        0
    } else {
        1 + cstr_len(s.skip(1))
    }
}

/// The bytes of a NUL-padded field before its first NUL.
pub open spec fn cstr_of(s: Seq<u8>) -> Seq<u8> {
    s.take(cstr_len(s))
}

/// The NUL-padded prefix length never exceeds the field, and every byte
/// before it is non-NUL while the byte at it (if any) is NUL.
pub proof fn lemma_cstr_len(s: Seq<u8>)
    ensures
        0 <= cstr_len(s) <= s.len(),
        forall|j: int| 0 <= j < cstr_len(s) ==> s[j] != 0,
        cstr_len(s) < s.len() ==> s[cstr_len(s)] == 0,
    decreases s.len(),
{
    if s.len() > 0 && s[0] != 0 {
        lemma_cstr_len(s.skip(1));
        assert forall|j: int| 0 <= j < cstr_len(s) implies s[j] != 0 by {
            if j > 0 {
                assert(s.skip(1)[j - 1] == s[j]);
                assert(s.skip(1)[j - 1] != 0);
            }
        }
        if cstr_len(s) < s.len() {
            assert(s.skip(1)[cstr_len(s) - 1] == s[cstr_len(s)]);
        }
    }
}

/// Copy the bytes of `s` before its first NUL.
pub fn copy_cstr(s: &[u8]) -> (v: Vec<u8>)
    ensures
        v@ == cstr_of(s@),
{
    proof {
        lemma_cstr_len(s@);
    }
    let n = s.len();
    let mut i: usize = 0;
    while i < n && *slice_index_get(s, i) != 0
        invariant
            n == s@.len(),
            i <= n,
            forall|j: int| 0 <= j < i ==> s@[j] != 0,
        decreases n - i,
    {
        i = i + 1;
    }
    proof {
        lemma_cstr_len(s@);
        assert(i == cstr_len(s@));
    }
    let v = vstd::slice::slice_to_vec(vstd::slice::slice_subrange(s, 0, i));
    proof {
        assert(v@ =~= cstr_of(s@));
    }
    v
}

/// Copy a name's bytes into an owned vector.
pub fn copy_cstr_full(s: &[u8]) -> (v: Vec<u8>)
    ensures
        v@ == s@,
{
    vstd::slice::slice_to_vec(s)
}

/// Three-way bytewise comparison of two names.
pub fn compare_names(a: &[u8], b: &[u8]) -> (o: NameOrder)
    ensures
        (o == NameOrder::Less) == name_lt(a@, b@),
        (o == NameOrder::Equal) == (a@ == b@),
        (o == NameOrder::Greater) == name_lt(b@, a@),
{
    proof {
        lemma_name_order_total(a@, b@);
    }
    let alen = a.len();
    let blen = b.len();
    let n = if alen < blen {
        alen
    } else {
        blen
    };
    let mut i: usize = 0;
    while i < n
        invariant
            n <= a@.len(),
            n <= b@.len(),
            n == if a@.len() < b@.len() {
                a@.len()
            } else {
                b@.len()
            },
            i <= n,
            forall|j: int| 0 <= j < i ==> a@[j] == b@[j],
        decreases n - i,
    {
        let x = *slice_index_get(a, i);
        let y = *slice_index_get(b, i);
        if x < y {
            proof {
                let aa = a@.skip(i as int);
                let bb = b@.skip(i as int);
                assert(aa[0] == a@[i as int] && bb[0] == b@[i as int]);
                assert(name_lt(aa, bb));
                lemma_name_lt_skip_prefix(a@, b@, i as int);
                lemma_name_order_total(a@, b@);
            }
            return NameOrder::Less;
        }
        if x > y {
            proof {
                let aa = a@.skip(i as int);
                let bb = b@.skip(i as int);
                assert(aa[0] == a@[i as int] && bb[0] == b@[i as int]);
                assert(name_lt(bb, aa));
                lemma_name_lt_skip_prefix(b@, a@, i as int);
                lemma_name_order_total(a@, b@);
            }
            return NameOrder::Greater;
        }
        i = i + 1;
    }
    if alen < blen {
        proof {
            assert(a@.skip(n as int).len() == 0 && b@.skip(n as int).len() > 0);
            assert(name_lt(a@.skip(n as int), b@.skip(n as int)));
            lemma_name_lt_skip_prefix(a@, b@, n as int);
            lemma_name_order_total(a@, b@);
        }
        NameOrder::Less
    } else if alen > blen {
        proof {
            assert(b@.skip(n as int).len() == 0 && a@.skip(n as int).len() > 0);
            assert(name_lt(b@.skip(n as int), a@.skip(n as int)));
            lemma_name_lt_skip_prefix(b@, a@, n as int);
            lemma_name_order_total(a@, b@);
        }
        NameOrder::Greater
    } else {
        proof {
            assert(a@ =~= b@);
        }
        NameOrder::Equal
    }
}

} // verus!
