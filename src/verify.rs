//! Comparison and conditional copy whose running time does not depend on
//! the bytes involved: no branch and no memory access depends on them.
use vstd::prelude::*;

verus! {

proof fn lemma_or_xor_zero(acc: u8, x: u8, y: u8)
    by (bit_vector)
    ensures
        ((acc | (x ^ y)) == 0u8) == (acc == 0u8 && x == y),
{
}

proof fn lemma_nonzero_flag(acc: u8)
    by (bit_vector)
    ensures
        acc == 0u8 ==> ((0u64.wrapping_sub(acc as u64) >> 63u64) as u8) == 0u8,
        acc != 0u8 ==> ((0u64.wrapping_sub(acc as u64) >> 63u64) as u8) == 1u8,
{
}

proof fn lemma_masked_select(r: u8, x: u8, b: u8)
    by (bit_vector)
    requires
        b == 0u8 || b == 1u8,
    ensures
        b == 1u8 ==> r ^ (0u8.wrapping_sub(b) & (r ^ x)) == x,
        b == 0u8 ==> r ^ (0u8.wrapping_sub(b) & (r ^ x)) == r,
{
}

/// Compares `a[..len]` with `b[..len]`: 0 when equal, 1 otherwise.
pub fn verify(a: &[u8], b: &[u8], len: usize) -> (r: u8)
    requires
        len <= a@.len(),
        len <= b@.len(),
    ensures
        r == 0 || r == 1,
        (r == 0) == (a@.subrange(0, len as int) == b@.subrange(0, len as int)),
{
    let mut acc: u8 = 0;
    let mut i: usize = 0;
    while i < len
        invariant
            len <= a@.len(),
            len <= b@.len(),
            0 <= i <= len,
            (acc == 0) == (forall|k: int| 0 <= k < i ==> a@[k] == b@[k]),
        decreases len - i,
    {
        proof {
            lemma_or_xor_zero(acc, a@[i as int], b@[i as int]);
        }
        acc = acc | (a[i] ^ b[i]);
        i = i + 1;
        proof {
            if acc == 0 {
                assert forall|k: int| 0 <= k < i implies a@[k] == b@[k] by {}
            }
        }
    }
    proof {
        lemma_nonzero_flag(acc);
        if acc == 0 {
            assert(a@.subrange(0, len as int) =~= b@.subrange(0, len as int));
        } else {
            if a@.subrange(0, len as int) == b@.subrange(0, len as int) {
                assert forall|k: int| 0 <= k < len implies a@[k] == b@[k] by {
                    assert(a@.subrange(0, len as int)[k] == b@.subrange(0, len as int)[k]);
                }
            }
        }
    }
    (0u64.wrapping_sub(acc as u64) >> 63) as u8
}

/// Copies `x[..len]` over `r[..len]` when `b` is 1 and leaves `r` as it was
/// when `b` is 0.
pub fn cmov(r: &mut [u8], x: &[u8], len: usize, b: u8)
    requires
        len <= old(r)@.len(),
        len <= x@.len(),
        b == 0 || b == 1,
    ensures
        final(r)@.len() == old(r)@.len(),
        b == 1 ==> final(r)@.subrange(0, len as int) == x@.subrange(0, len as int),
        b == 0 ==> final(r)@ == old(r)@,
        final(r)@.subrange(len as int, old(r)@.len() as int) == old(r)@.subrange(
            len as int,
            old(r)@.len() as int,
        ),
{
    let mask = 0u8.wrapping_sub(b);
    let mut i: usize = 0;
    while i < len
        invariant
            len <= r@.len() == old(r)@.len(),
            len <= x@.len(),
            b == 0 || b == 1,
            mask == 0u8.wrapping_sub(b),
            0 <= i <= len,
            forall|k: int| 0 <= k < i ==> r@[k] == if b == 1 { x@[k] } else { old(r)@[k] },
            forall|k: int| i <= k < r@.len() ==> r@[k] == old(r)@[k],
        decreases len - i,
    {
        proof {
            lemma_masked_select(r@[i as int], x@[i as int], b);
        }
        r[i] = r[i] ^ (mask & (r[i] ^ x[i]));
        i = i + 1;
    }
    proof {
        if b == 1 {
            assert(r@.subrange(0, len as int) =~= x@.subrange(0, len as int));
        } else {
            assert(r@ =~= old(r)@);
        }
    }
    assert(r@.subrange(len as int, old(r)@.len() as int) =~= old(r)@.subrange(
        len as int,
        old(r)@.len() as int,
    ));
}

} // verus!
