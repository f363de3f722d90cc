//! Copying between byte buffers.
use vstd::prelude::*;

verus! {

/// Copies `src[src_off .. src_off + n]` over `dst[dst_off .. dst_off + n]`.
pub fn copy_bytes(dst: &mut [u8], dst_off: usize, src: &[u8], src_off: usize, n: usize)
    requires
        dst_off + n <= old(dst)@.len(),
        src_off + n <= src@.len(),
    ensures
        final(dst)@ == old(dst)@.subrange(0, dst_off as int) + src@.subrange(
            src_off as int,
            src_off + n,
        ) + old(dst)@.subrange(dst_off + n, old(dst)@.len() as int),
{
    let dl = dst.len();
    let sl = src.len();
    let mut i: usize = 0;
    while i < n
        invariant
            dl == dst@.len(),
            sl == src@.len(),
            dst_off + n <= dst@.len() == old(dst)@.len(),
            src_off + n <= src@.len(),
            0 <= i <= n,
            forall|k: int| 0 <= k < dst_off ==> dst@[k] == old(dst)@[k],
            forall|k: int| 0 <= k < i ==> #[trigger] dst@[dst_off + k] == src@[src_off + k],
            forall|k: int| dst_off + i <= k < dst@.len() ==> dst@[k] == old(dst)@[k],
        decreases n - i,
    {
        dst[dst_off + i] = src[src_off + i];
        i = i + 1;
    }
    let ghost want = old(dst)@.subrange(0, dst_off as int) + src@.subrange(
        src_off as int,
        src_off + n,
    ) + old(dst)@.subrange(dst_off + n, old(dst)@.len() as int);
    assert forall|k: int| dst_off <= k < dst_off + n implies dst@[k] == want[k] by {
        assert(dst@[dst_off + (k - dst_off)] == src@[src_off + (k - dst_off)]);
    }
    assert(dst@ =~= old(dst)@.subrange(0, dst_off as int) + src@.subrange(
        src_off as int,
        src_off + n,
    ) + old(dst)@.subrange(dst_off + n, old(dst)@.len() as int));
}

} // verus!
