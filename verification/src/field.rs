//! Byte-level model of BN254 scalar values: scalars travel as big-endian
//! byte vectors, and `be_val` is the mathematical value such a vector denotes.

use vstd::prelude::*;
use vstd::arithmetic::div_mod::lemma_small_mod;

verus! {

/// Value denoted by a big-endian byte string.
pub open spec fn be_val(s: Seq<u8>) -> nat
    decreases s.len(),
{
    if s.len() == 0 {
        0
    } else {
        (be_val(s.drop_last()) * 256 + s.last()) as nat
    }
}

pub proof fn lemma_be_val_push(q: Seq<u8>, x: u8)
    ensures
        be_val(q.push(x)) == be_val(q) * 256 + x,
{
    assert(q.push(x).drop_last() =~= q);
    assert(q.push(x).last() == x);
}

/// A big-endian value determines its bytes: two strings of one length with
/// one value are equal byte-for-byte.
pub proof fn lemma_be_val_injective(a: Seq<u8>, b: Seq<u8>)
    requires
        a.len() == b.len(),
        be_val(a) == be_val(b),
    ensures
        a =~= b,
    decreases a.len(),
{
    if a.len() == 0 {
    } else {
        assert(be_val(a.drop_last()) * 256 + a.last() == be_val(b.drop_last()) * 256 + b.last());
        assert(be_val(a.drop_last()) == be_val(b.drop_last()) && a.last() == b.last())
            by (nonlinear_arith)
            requires
                be_val(a.drop_last()) * 256 + a.last() == be_val(b.drop_last()) * 256 + b.last(),
                0 <= a.last() < 256,
                0 <= b.last() < 256,
        ;
        lemma_be_val_injective(a.drop_last(), b.drop_last());
        assert(a =~= a.drop_last().push(a.last()));
        assert(b =~= b.drop_last().push(b.last()));
    }
}

pub proof fn lemma_be_val_all_zero(z: Seq<u8>)
    requires
        forall|i: int| 0 <= i < z.len() ==> z[i] == 0,
    ensures
        be_val(z) == 0,
    decreases z.len(),
{
    if z.len() > 0 {
        lemma_be_val_all_zero(z.drop_last());
    }
}

/// Leading zero bytes do not change the value.
pub proof fn lemma_be_val_zero_prefix(z: Seq<u8>, s: Seq<u8>)
    requires
        forall|i: int| 0 <= i < z.len() ==> z[i] == 0,
    ensures
        be_val(z + s) == be_val(s),
    decreases s.len(),
{
    if s.len() == 0 {
        assert(z + s =~= z);
        lemma_be_val_all_zero(z);
    } else {
        assert((z + s).drop_last() =~= z + s.drop_last());
        assert((z + s).last() == s.last());
        lemma_be_val_zero_prefix(z, s.drop_last());
    }
}

/// Left-pad a big-endian scalar encoding with zero bytes to the canonical
/// 32-byte width, preserving its value.
pub fn pad_be_32(v: Vec<u8>) -> (r: Vec<u8>)
    requires
        v@.len() <= 32,
    ensures
        r@.len() == 32,
        be_val(r@) == be_val(v@),
{
    let pad: usize = 32 - v.len();
    let mut r: Vec<u8> = Vec::new();
    while r.len() < pad
        invariant
            r@.len() <= pad,
            pad <= 32,
            forall|i: int| 0 <= i < r@.len() ==> r@[i] == 0,
        decreases pad - r@.len(),
    {
        r.push(0u8);
    }
    let mut j: usize = 0;
    while j < v.len()
        invariant
            j <= v@.len(),
            pad + v@.len() == 32,
            r@.len() == pad + j,
            forall|i: int| 0 <= i < pad ==> r@[i] == 0,
            forall|i: int| 0 <= i < j ==> r@[pad + i] == v@[i],
        decreases v@.len() - j,
    {
        r.push(v[j]);
        j += 1;
    }
    proof {
        let z = r@.subrange(0, pad as int);
        assert(r@ =~= z + v@);
        lemma_be_val_zero_prefix(z, v@);
    }
    r
}

/// Reducing a value already below the modulus changes nothing.
pub proof fn lemma_mod_noop(x: nat, m: nat)
    requires
        0 < m,
        x < m,
    ensures
        x % m == x,
{
    lemma_small_mod(x, m);
}

} // verus!
