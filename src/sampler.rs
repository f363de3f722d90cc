//! Rejection sampling of uniform polynomial vectors from a seed.
use vstd::prelude::*;
use crate::error::HicError;
use crate::params::{KYBER_K, KYBER_N, KYBER_Q, XOF_BLOCKBYTES};
use crate::polyvec::Polyvec;
use crate::symmetric::{shake128_of, xof_absorb, xof_squeezeblocks, KeccakState};

verus! {

/// The most blocks of output squeezed for one polynomial before giving up.
/// Three blocks almost always suffice; each further block adds 112
/// candidates, of which about 91 are accepted.
pub const GEN_VECTOR_MAX_BLOCKS: usize = 32;

/// Blocks squeezed on the first attempt for one polynomial.
pub const GEN_VECTOR_NBLOCKS: usize = 3;

/// The first twelve-bit candidate of the triplet starting at `i`.
pub open spec fn candidate0(b: Seq<u8>, i: int) -> int {
    b[i] + (b[i + 1] % 16) * 256
}

/// The second twelve-bit candidate of the triplet starting at `i`.
pub open spec fn candidate1(b: Seq<u8>, i: int) -> int {
    b[i + 1] / 16 + b[i + 2] * 16
}

/// The accepted candidates (those below q) of the first `t` byte triplets
/// of `b`, in order.
pub open spec fn sampled(b: Seq<u8>, t: nat) -> Seq<i16>
    decreases t,
{
    if t == 0 {
        Seq::empty()
    } else {
        let prev = sampled(b, (t - 1) as nat);
        let i = 3 * (t - 1);
        let v0 = candidate0(b, i);
        let v1 = candidate1(b, i);
        let s0 = if v0 < 3329 {
            prev.push(v0 as i16)
        } else {
            prev
        };
        if v1 < 3329 {
            s0.push(v1 as i16)
        } else {
            s0
        }
    }
}

/// The accepted candidates in the first `nb` blocks of SHAKE128 output on `ext`.
pub open spec fn stream_sample(ext: Seq<u8>, nb: nat) -> Seq<i16> {
    sampled(shake128_of(ext, 168 * nb), 56 * nb)
}

/// The polynomial sampled from `ext` when `nb` blocks are squeezed first and
/// one more block on each further attempt: the first 256 accepted
/// candidates, or `None` when `GEN_VECTOR_MAX_BLOCKS` blocks do not hold
/// that many.
pub open spec fn row_from(ext: Seq<u8>, nb: nat) -> Option<Seq<i16>>
    decreases 33 - nb,
{
    if nb > 32 {
        None
    } else if stream_sample(ext, nb).len() >= 256 {
        Some(stream_sample(ext, nb).take(256))
    } else {
        row_from(ext, nb + 1)
    }
}

/// The XOF input for row `i`: the seed followed by the bytes `i` and `0`.
pub open spec fn row_input(seed: Seq<u8>, i: int) -> Seq<u8> {
    seed.push(i as u8).push(0u8)
}

/// The vector sampled from a seed, or `None` when some row runs out of blocks.
pub open spec fn gen_vector_spec(seed: Seq<u8>) -> Option<Seq<Seq<i16>>> {
    let r0 = row_from(row_input(seed, 0), 3);
    let r1 = row_from(row_input(seed, 1), 3);
    let r2 = row_from(row_input(seed, 2), 3);
    if r0 is Some && r1 is Some && r2 is Some {
        Some(seq![r0->0, r1->0, r2->0])
    } else {
        None
    }
}

proof fn lemma_candidate_bits(b0: u8, b1: u8, b2: u8)
    by (bit_vector)
    ensures
        (((b0 >> 0u8) as u16 | (b1 as u16) << 8u16) & 0xFFFu16) == b0 + (b1 % 16) * 256,
        (((b1 >> 4u8) as u16 | (b2 as u16) << 4u16) & 0xFFFu16) == b1 / 16 + b2 * 16,
{
}

/// Sampling more triplets only appends candidates.
proof fn lemma_sampled_prefix(b: Seq<u8>, t1: nat, t2: nat)
    requires
        t1 <= t2,
    ensures
        sampled(b, t1).len() <= sampled(b, t2).len(),
        sampled(b, t2).take(sampled(b, t1).len() as int) == sampled(b, t1),
    decreases t2,
{
    if t1 < t2 {
        lemma_sampled_prefix(b, t1, (t2 - 1) as nat);
        let p = sampled(b, (t2 - 1) as nat);
        assert(sampled(b, t2).take(p.len() as int) =~= p);
        assert(sampled(b, t2).take(sampled(b, t1).len() as int) =~= p.take(
            sampled(b, t1).len() as int,
        ));
    } else {
        assert(sampled(b, t2).take(sampled(b, t1).len() as int) =~= sampled(b, t1));
    }
}

/// Fills `r` from the start with accepted candidates of the first `buflen`
/// bytes of `buf`, stopping after `len`. Returns how many were written.
fn rej_uniform(r: &mut [i16; 256], len: usize, buf: &[u8], buflen: usize) -> (ctr: usize)
    requires
        len <= 256,
        buflen <= buf@.len(),
    ensures
        ctr <= len,
        ctr == len || ctr == sampled(buf@, (buflen / 3) as nat).len(),
        ctr <= sampled(buf@, (buflen / 3) as nat).len(),
        final(r)@.subrange(0, ctr as int) == sampled(buf@, (buflen / 3) as nat).take(ctr as int),
        final(r)@.subrange(ctr as int, 256) == old(r)@.subrange(ctr as int, 256),
{
    let mut ctr: usize = 0;
    let mut pos: usize = 0;
    while ctr < len && buflen - pos >= 3
        invariant
            len <= 256,
            buflen <= buf@.len(),
            pos % 3 == 0,
            pos <= buflen,
            ctr <= len,
            ctr <= sampled(buf@, (pos / 3) as nat).len(),
            ctr < len ==> ctr == sampled(buf@, (pos / 3) as nat).len(),
            forall|k: int| 0 <= k < ctr ==> r@[k] == sampled(buf@, (pos / 3) as nat)[k],
            forall|k: int| ctr <= k < 256 ==> r@[k] == old(r)@[k],
        decreases buflen - pos,
    {
        let ghost t = (pos / 3) as nat;
        let ghost prev = sampled(buf@, t);
        let b0 = buf[pos];
        let b1 = buf[pos + 1];
        let b2 = buf[pos + 2];
        proof {
            lemma_candidate_bits(b0, b1, b2);
        }
        let val0: u16 = ((b0 >> 0) as u16 | (b1 as u16) << 8) & 0xFFF;
        let val1: u16 = ((b1 >> 4) as u16 | (b2 as u16) << 4) & 0xFFF;
        pos = pos + 3;
        assert(pos / 3 == t + 1);
        assert(3 * ((t + 1) - 1) == pos - 3);
        let ghost next = sampled(buf@, (t + 1) as nat);
        if val0 < KYBER_Q as u16 {
            r[ctr] = val0 as i16;
            ctr = ctr + 1;
        }
        if ctr < len && val1 < KYBER_Q as u16 {
            r[ctr] = val1 as i16;
            ctr = ctr + 1;
        }
        assert forall|k: int| 0 <= k < ctr implies r@[k] == next[k] by {
            if k < prev.len() {
                lemma_sampled_prefix(buf@, t, t + 1);
                assert(next.take(prev.len() as int)[k] == prev[k]);
            }
        }
    }
    proof {
        lemma_sampled_prefix(buf@, (pos / 3) as nat, (buflen / 3) as nat);
        let whole = sampled(buf@, (buflen / 3) as nat);
        let part = sampled(buf@, (pos / 3) as nat);
        assert forall|k: int| 0 <= k < ctr implies r@[k] == whole[k] by {
            assert(whole.take(part.len() as int)[k] == part[k]);
        }
        assert(r@.subrange(0, ctr as int) =~= whole.take(ctr as int));
        assert(r@.subrange(ctr as int, 256) =~= old(r)@.subrange(ctr as int, 256));
    }
    ctr
}

/// Samples one polynomial from the XOF stream on `seed || i || 0`: the first
/// `KYBER_N` accepted candidates, squeezing three blocks and then one block
/// more on each further attempt.
fn sample_row(seed: &[u8], i: u8, out: &mut [i16; 256]) -> (ok: bool)
    requires
        seed@.len() == 32,
    ensures
        ok == (row_from(row_input(seed@, i as int), 3) is Some),
        ok ==> final(out)@ == row_from(row_input(seed@, i as int), 3)->0,
{
    let ghost ext = row_input(seed@, i as int);
    let mut nb: usize = GEN_VECTOR_NBLOCKS;
    let mut state = KeccakState::new();
    while nb <= GEN_VECTOR_MAX_BLOCKS
        invariant
            seed@.len() == 32,
            ext == row_input(seed@, i as int),
            3 <= nb <= 33,
            row_from(ext, 3) == row_from(ext, nb as nat),
        decreases 33 - nb,
    {
        xof_absorb(&mut state, seed, i, 0u8);
        let buflen = nb * XOF_BLOCKBYTES;
        let mut buf: Vec<u8> = Vec::new();
        let mut k: usize = 0;
        while k < buflen
            invariant
                0 <= k <= buflen,
                buf@.len() == k,
            decreases buflen - k,
        {
            buf.push(0u8);
            k = k + 1;
        }
        xof_squeezeblocks(buf.as_mut_slice(), nb, &mut state);
        let ghost stream = shake128_of(ext, 168 * nb as nat);
        assert(buf@ =~= buf@.subrange(0, 168 * nb));
        assert(buf@ == stream.subrange(0, 168 * nb));
        assert(buflen / 3 == 56 * nb);
        assert forall|t: nat| t <= 56 * nb implies #[trigger] sampled(buf@, t) == sampled(
            stream,
            t,
        ) by {
            lemma_sampled_same_bytes(buf@, stream, t);
        }
        let mut coeffs: [i16; 256] = [0i16; 256];
        let ctr = rej_uniform(&mut coeffs, KYBER_N, buf.as_slice(), buflen);
        if ctr == KYBER_N {
            assert(coeffs@ =~= coeffs@.subrange(0, 256));
            *out = coeffs;
            return true;
        }
        nb = nb + 1;
    }
    false
}

/// Sampling reads only the triplets it is asked for.
proof fn lemma_sampled_same_bytes(a: Seq<u8>, b: Seq<u8>, t: nat)
    requires
        3 * t <= a.len() <= b.len(),
        a == b.subrange(0, a.len() as int),
    ensures
        sampled(a, t) == sampled(b, t),
    decreases t,
{
    if t > 0 {
        lemma_sampled_same_bytes(a, b, (t - 1) as nat);
        let i = 3 * (t - 1);
        assert(a[i] == b[i] && a[i + 1] == b[i + 1] && a[i + 2] == b[i + 2]);
    }
}

/// Deterministically derives a vector of polynomials that look uniformly
/// random modulo q from a 32-byte seed. Row `i` is sampled from the XOF
/// stream on `seed || i || 0`. Fails only when a row does not fill within
/// `GEN_VECTOR_MAX_BLOCKS` blocks.
pub fn gen_vector(v: &mut Polyvec, seed: &[u8]) -> (r: Result<(), HicError>)
    requires
        seed@.len() == 32,
    ensures
        r is Ok == (gen_vector_spec(seed@) is Some),
        r is Ok ==> final(v)@ == gen_vector_spec(seed@)->0,
        r is Err ==> r == Err::<(), HicError>(HicError::Other),
{
    let mut i: usize = 0;
    while i < KYBER_K
        invariant
            0 <= i <= 3,
            seed@.len() == 32,
            forall|k: int| 0 <= k < i ==> row_from(row_input(seed@, k), 3) is Some,
            forall|k: int|
                0 <= k < i ==> #[trigger] v@[k] == row_from(row_input(seed@, k), 3)->0,
        decreases 3 - i,
    {
        let mut coeffs: [i16; 256] = [0i16; 256];
        let ok = sample_row(seed, i as u8, &mut coeffs);
        if !ok {
            return Err(HicError::Other);
        }
        let ghost old_view = v@;
        v.vec[i].coeffs = coeffs;
        assert forall|k: int| 0 <= k < i implies #[trigger] v@[k] == old_view[k] by {}
        i = i + 1;
    }
    assert(v@ =~= gen_vector_spec(seed@)->0);
    Ok(())
}


/// Accepted candidates lie in `[0, q)`.
proof fn lemma_sampled_range(b: Seq<u8>, t: nat)
    ensures
        forall|k: int| 0 <= k < sampled(b, t).len() ==> 0 <= #[trigger] sampled(b, t)[k] < 3329,
    decreases t,
{
    if t > 0 {
        lemma_sampled_range(b, (t - 1) as nat);
        let prev = sampled(b, (t - 1) as nat);
        let i = 3 * (t - 1);
        let v0 = candidate0(b, i);
        let v1 = candidate1(b, i);
        assert(0 <= v0 && 0 <= v1);
        let s0 = if v0 < 3329 {
            prev.push(v0 as i16)
        } else {
            prev
        };
        assert forall|k: int| 0 <= k < s0.len() implies 0 <= #[trigger] s0[k] < 3329 by {
            if k < prev.len() {
                assert(s0[k] == prev[k]);
            }
        }
        assert forall|k: int| 0 <= k < sampled(b, t).len() implies 0 <= #[trigger] sampled(b, t)[k]
            < 3329 by {
            if k < s0.len() {
                assert(sampled(b, t)[k] == s0[k]);
            }
        }
    }
}

/// A sampled row has 256 coefficients in `[0, q)`.
pub proof fn lemma_row_from_range(ext: Seq<u8>, nb: nat)
    requires
        row_from(ext, nb) is Some,
    ensures
        (row_from(ext, nb)->0).len() == 256,
        forall|k: int| 0 <= k < 256 ==> 0 <= #[trigger] (row_from(ext, nb)->0)[k] < 3329,
    decreases 33 - nb,
{
    if nb <= 32 && stream_sample(ext, nb).len() < 256 {
        lemma_row_from_range(ext, nb + 1);
    } else {
        lemma_sampled_range(shake128_of(ext, 168 * nb), 56 * nb);
    }
}

/// Every coefficient of a sampled vector lies in `[0, q)`.
pub proof fn lemma_gen_vector_range(seed: Seq<u8>)
    requires
        gen_vector_spec(seed) is Some,
    ensures
        (gen_vector_spec(seed)->0).len() == 3,
        forall|i: int| 0 <= i < 3 ==> (#[trigger] (gen_vector_spec(seed)->0)[i]).len() == 256,
        forall|i: int, j: int|
            0 <= i < 3 && 0 <= j < 256 ==> 0 <= #[trigger] (gen_vector_spec(seed)->0)[i][j] < 3329,
{
    lemma_row_from_range(row_input(seed, 0), 3);
    lemma_row_from_range(row_input(seed, 1), 3);
    lemma_row_from_range(row_input(seed, 2), 3);
    let v = gen_vector_spec(seed)->0;
    assert forall|i: int, j: int| 0 <= i < 3 && 0 <= j < 256 implies 0 <= #[trigger] v[i][j] < 3329 by {
        if i == 0 {
            assert(v[0] == row_from(row_input(seed, 0), 3)->0);
        } else if i == 1 {
            assert(v[1] == row_from(row_input(seed, 1), 3)->0);
        } else {
            assert(v[2] == row_from(row_input(seed, 2), 3)->0);
        }
    }
}

} // verus!
