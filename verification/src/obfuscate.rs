//! Repeating-key XOR mask over serialized proof bytes. Not a cryptographic
//! binding: a format-level deterrent that ties an artifact to the photo
//! digest of its holder.

use vstd::prelude::*;

verus! {

/// Bytes of `b` masked with the repeating pad `pad`; an empty pad is a
/// no-op.
pub open spec fn xor_mask(b: Seq<u8>, pad: Seq<u8>) -> Seq<u8> {
    if pad.len() == 0 {
        b
    } else {
        Seq::new(b.len(), |i: int| b[i] ^ pad[i % pad.len() as int])
    }
}

/// Mask a buffer in place with the repeating pad.
pub fn hide_buffer(buf: &mut Vec<u8>, hidding: &Vec<u8>)
    ensures
        final(buf)@ == xor_mask(old(buf)@, hidding@),
{
    if hidding.len() > 0 {
        let ghost orig = buf@;
        let mut i: usize = 0;
        while i < buf.len()
            invariant
                hidding@.len() > 0,
                i <= buf@.len(),
                buf@.len() == orig.len(),
                forall|j: int| 0 <= j < i ==> buf@[j] == (orig[j] ^ hidding@[j % hidding@.len() as int]),
                forall|j: int| i <= j < orig.len() ==> buf@[j] == orig[j],
            decreases buf@.len() - i,
        {
            let m = buf[i] ^ hidding[i % hidding.len()];
            buf.set(i, m);
            i += 1;
        }
        proof {
            assert(buf@ =~= xor_mask(orig, hidding@));
        }
    }
}

/// Masking is an involution: applying the same pad twice gives the
/// original bytes back, and the empty pad changes nothing.
pub proof fn lemma_hide_involutive(b: Seq<u8>, pad: Seq<u8>)
    ensures
        xor_mask(xor_mask(b, pad), pad) =~= b,
        xor_mask(b, Seq::<u8>::empty()) == b,
{
    if pad.len() > 0 {
        assert forall|i: int| 0 <= i < b.len() implies xor_mask(xor_mask(b, pad), pad)[i]
            == b[i] by {
            let p = pad[i % pad.len() as int];
            let x = b[i];
            assert((x ^ p) ^ p == x) by (bit_vector);
        }
    }
}

} // verus!
