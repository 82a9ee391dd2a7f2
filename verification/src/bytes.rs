//! Byte strings: lexicographic order, equality and copying.

use crate::rel::{order_laws, Rel};
use vstd::prelude::*;

verus! {

/// Lexicographic comparison of `a` and `b` from index `i` on, given that
/// they agree before `i`. A proper prefix is less than the longer string.
pub open spec fn bytes_rel_from(a: Seq<u8>, b: Seq<u8>, i: int) -> Rel
    decreases a.len() - i,
{
    if i < 0 {
        Rel::Equal
    } else if i >= a.len() {
        if i >= b.len() {
            Rel::Equal
        } else {
            Rel::Less
        }
    } else if i >= b.len() {
        Rel::Greater
    } else if a[i] < b[i] {
        Rel::Less
    } else if a[i] > b[i] {
        Rel::Greater
    } else {
        bytes_rel_from(a, b, i + 1)
    }
}

/// Lexicographic comparison of two byte strings.
pub open spec fn bytes_rel(a: Seq<u8>, b: Seq<u8>) -> Rel {
    bytes_rel_from(a, b, 0)
}

/// `bytes_rel_from` is `Equal` exactly when the two strings have the same
/// length and agree from `i` on.
pub proof fn lemma_bytes_rel_from_equal(a: Seq<u8>, b: Seq<u8>, i: int)
    requires
        0 <= i,
        i <= a.len(),
        i <= b.len(),
    ensures
        bytes_rel_from(a, b, i) == Rel::Equal <==> (a.len() == b.len() && forall|j: int|
            i <= j < a.len() ==> a[j] == b[j]),
    decreases a.len() - i,
{
    if i < a.len() && i < b.len() && a[i] == b[i] {
        lemma_bytes_rel_from_equal(a, b, i + 1);
    }
}

/// Swapping the arguments flips the outcome.
pub proof fn lemma_bytes_rel_from_flip(a: Seq<u8>, b: Seq<u8>, i: int)
    requires
        0 <= i,
    ensures
        bytes_rel_from(b, a, i) == bytes_rel_from(a, b, i).flip(),
    decreases a.len() - i,
{
    if i < a.len() && i < b.len() && a[i] == b[i] {
        lemma_bytes_rel_from_flip(a, b, i + 1);
    }
}

/// The order is transitive, and strict where one of the two steps is.
pub proof fn lemma_bytes_rel_from_trans(a: Seq<u8>, b: Seq<u8>, c: Seq<u8>, i: int)
    requires
        0 <= i,
        bytes_rel_from(a, b, i).at_most(),
        bytes_rel_from(b, c, i).at_most(),
    ensures
        bytes_rel_from(a, c, i).at_most(),
        bytes_rel_from(a, c, i) == Rel::Equal ==> bytes_rel_from(a, b, i) == Rel::Equal
            && bytes_rel_from(b, c, i) == Rel::Equal,
    decreases a.len() - i,
{
    if i < a.len() && i < b.len() && i < c.len() && a[i] == b[i] && b[i] == c[i] {
        lemma_bytes_rel_from_trans(a, b, c, i + 1);
    }
}

/// The laws of a total order for `bytes_rel`: it is `Equal` exactly on
/// equal strings, antisymmetric and transitive.
pub proof fn lemma_bytes_rel_total_order(a: Seq<u8>, b: Seq<u8>, c: Seq<u8>)
    ensures
        order_laws(a, b, c, bytes_rel(a, b), bytes_rel(b, a), bytes_rel(b, c), bytes_rel(a, c)),
{
    lemma_bytes_rel_from_equal(a, b, 0);
    lemma_bytes_rel_from_equal(b, c, 0);
    lemma_bytes_rel_from_equal(a, c, 0);
    if a.len() == c.len() && (forall|j: int| 0 <= j < a.len() ==> a[j] == c[j]) {
        assert(a =~= c);
    }
    lemma_bytes_rel_from_flip(a, b, 0);
    if bytes_rel(a, b).at_most() && bytes_rel(b, c).at_most() {
        lemma_bytes_rel_from_trans(a, b, c, 0);
    }
    if a.len() == b.len() && (forall|j: int| 0 <= j < a.len() ==> a[j] == b[j]) {
        assert(a =~= b);
    }
    if b.len() == c.len() && (forall|j: int| 0 <= j < b.len() ==> b[j] == c[j]) {
        assert(b =~= c);
    }
}

/// Compares two byte slices lexicographically.
pub fn compare_bytes(a: &[u8], b: &[u8]) -> (r: Rel)
    ensures
        r == bytes_rel(a@, b@),
{
    let mut i: usize = 0;
    while i < a.len() && i < b.len()
        invariant
            i <= a@.len(),
            i <= b@.len(),
            bytes_rel(a@, b@) == bytes_rel_from(a@, b@, i as int),
        decreases a@.len() - i,
    {
        if a[i] < b[i] {
            return Rel::Less;
        }
        if a[i] > b[i] {
            return Rel::Greater;
        }
        i = i + 1;
    }
    if i < b.len() {
        Rel::Less
    } else if i < a.len() {
        Rel::Greater
    } else {
        Rel::Equal
    }
}

/// Whether two byte slices hold the same bytes.
pub fn bytes_eq(a: &[u8], b: &[u8]) -> (r: bool)
    ensures
        r == (a@ == b@),
{
    let r = compare_bytes(a, b);
    proof {
        lemma_bytes_rel_total_order(a@, b@, b@);
    }
    match r {
        Rel::Equal => true,
        _ => false,
    }
}

/// A copy of a byte slice as a vector.
pub fn bytes_to_vec(a: &[u8]) -> (r: Vec<u8>)
    ensures
        r@ == a@,
{
    let mut r: Vec<u8> = Vec::new();
    let mut i: usize = 0;
    while i < a.len()
        invariant
            i <= a@.len(),
            r@ == a@.subrange(0, i as int),
        decreases a@.len() - i,
    {
        r.push(a[i]);
        i = i + 1;
        assert(r@ =~= a@.subrange(0, i as int));
    }
    assert(a@.subrange(0, a@.len() as int) =~= a@);
    r
}


/// Two arrays are equal exactly when they hold the same bytes.
pub proof fn lemma_array_eq<const N: usize>(a: [u8; N], b: [u8; N])
    ensures
        (a@ == b@) <==> a == b,
{
    if a@ == b@ {
        assert forall|i: int| 0 <= i < N implies a[i] == b[i] by {
            assert(a[i] == a@[i]);
            assert(b[i] == b@[i]);
        }
        assert(a =~= b);
    }
}

/// The laws of a total order for `bytes_rel` on the contents of arrays.
pub proof fn lemma_array_rel_total_order<const N: usize>(a: [u8; N], b: [u8; N], c: [u8; N])
    ensures
        order_laws(
            a,
            b,
            c,
            bytes_rel(a@, b@),
            bytes_rel(b@, a@),
            bytes_rel(b@, c@),
            bytes_rel(a@, c@),
        ),
{
    lemma_bytes_rel_total_order(a@, b@, c@);
    lemma_array_eq(a, b);
    lemma_array_eq(b, c);
    lemma_array_eq(a, c);
}

} // verus!
