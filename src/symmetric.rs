//! Hashes, extendable-output function and PRF. The Keccak and SHA-2 hashes
//! come from the `sha3` and `sha2` crates; this module frames their inputs.
use vstd::prelude::*;
use crate::params::{KYBER_SSBYTES, KYBER_SYMBYTES, XOF_BLOCKBYTES};

verus! {

/// SHA3-256 of a byte string.
pub uninterp spec fn sha3_256_of(input: Seq<u8>) -> Seq<u8>;

/// SHA3-512 of a byte string.
pub uninterp spec fn sha3_512_of(input: Seq<u8>) -> Seq<u8>;

/// The first `len` bytes of SHAKE128 output on a byte string.
pub uninterp spec fn shake128_of(input: Seq<u8>, len: nat) -> Seq<u8>;

/// The first `len` bytes of SHAKE256 output on a byte string.
pub uninterp spec fn shake256_of(input: Seq<u8>, len: nat) -> Seq<u8>;

/// SHA-256 of a byte string.
pub uninterp spec fn sha256_of(input: Seq<u8>) -> Seq<u8>;

/// SHA-512 of a byte string.
pub uninterp spec fn sha512_of(input: Seq<u8>) -> Seq<u8>;

/// Relies on `sha3::Sha3_256::digest` (through `digest::Digest`): the 32-byte
/// SHA3-256 digest of `input[..inlen]`.
#[verifier::external_body]
fn sha3_256_digest(input: &[u8], inlen: usize) -> (r: [u8; 32])
    requires
        inlen <= input@.len(),
    ensures
        r@ == sha3_256_of(input@.subrange(0, inlen as int)),
{
    <sha3::Sha3_256 as sha3::Digest>::digest(&input[..inlen]).into()
}

/// Relies on `sha3::Sha3_512::digest` (through `digest::Digest`): the 64-byte
/// SHA3-512 digest of `input[..inlen]`.
#[verifier::external_body]
fn sha3_512_digest(input: &[u8], inlen: usize) -> (r: [u8; 64])
    requires
        inlen <= input@.len(),
    ensures
        r@ == sha3_512_of(input@.subrange(0, inlen as int)),
{
    <sha3::Sha3_512 as sha3::Digest>::digest(&input[..inlen]).into()
}

/// Relies on `sha2::Sha256::digest` (through `digest::Digest`): the 32-byte
/// SHA-256 digest of `input[..inlen]`.
#[verifier::external_body]
fn sha2_256_digest(input: &[u8], inlen: usize) -> (r: [u8; 32])
    requires
        inlen <= input@.len(),
    ensures
        r@ == sha256_of(input@.subrange(0, inlen as int)),
{
    <sha2::Sha256 as sha2::Digest>::digest(&input[..inlen]).into()
}

/// Relies on `sha2::Sha512::digest` (through `digest::Digest`): the 64-byte
/// SHA-512 digest of `input[..inlen]`.
#[verifier::external_body]
fn sha2_512_digest(input: &[u8], inlen: usize) -> (r: [u8; 64])
    requires
        inlen <= input@.len(),
    ensures
        r@ == sha512_of(input@.subrange(0, inlen as int)),
{
    <sha2::Sha512 as sha2::Digest>::digest(&input[..inlen]).into()
}

/// Relies on `sha3::Shake128::digest_xof` (through `digest::ExtendableOutput`):
/// fills `out` with the first `out.len()` bytes of SHAKE128 output on
/// `input`.
#[verifier::external_body]
fn shake128_fill(input: &[u8], out: &mut [u8])
    ensures
        final(out)@.len() == old(out)@.len(),
        final(out)@ == shake128_of(input@, old(out)@.len()),
{
    <sha3::Shake128 as sha3::digest::ExtendableOutput>::digest_xof(input, out)
}

/// Relies on `sha3::Shake256::digest_xof` (through `digest::ExtendableOutput`):
/// fills `out` with the first `out.len()` bytes of SHAKE256 output on `input`.
#[verifier::external_body]
fn shake256_fill(input: &[u8], out: &mut [u8])
    ensures
        final(out)@.len() == old(out)@.len(),
        final(out)@ == shake256_of(input@, old(out)@.len()),
{
    <sha3::Shake256 as sha3::digest::ExtendableOutput>::digest_xof(input, out)
}

/// Copies `src[..n]` into `dst[..n]`, leaving the rest of `dst` as it was.
fn copy_prefix(dst: &mut [u8], src: &[u8], n: usize)
    requires
        n <= old(dst)@.len(),
        n <= src@.len(),
    ensures
        final(dst)@ == src@.subrange(0, n as int) + old(dst)@.subrange(n as int, old(dst)@.len() as int),
{
    let mut i: usize = 0;
    while i < n
        invariant
            n <= dst@.len() == old(dst)@.len(),
            n <= src@.len(),
            0 <= i <= n,
            forall|k: int| 0 <= k < i ==> dst@[k] == src@[k],
            forall|k: int| i <= k < dst@.len() ==> dst@[k] == old(dst)@[k],
        decreases n - i,
    {
        dst[i] = src[i];
        i = i + 1;
    }
    assert(dst@ =~= src@.subrange(0, n as int) + old(dst)@.subrange(n as int, old(dst)@.len() as int));
}

/// The state of the extendable-output function: what was absorbed and how
/// many bytes were already squeezed.
pub struct KeccakState {
    pub absorbed: Vec<u8>,
    pub pos: usize,
}

impl KeccakState {
    /// A state that absorbed nothing and squeezed nothing.
    pub fn new() -> (r: Self)
        ensures
            r.absorbed@ == Seq::<u8>::empty(),
            r.pos == 0,
    {
        KeccakState { absorbed: Vec::new(), pos: 0 }
    }

    /// Returns the state to that of `new`.
    pub fn reset(&mut self)
        ensures
            final(self).absorbed@ == Seq::<u8>::empty(),
            final(self).pos == 0,
    {
        self.absorbed = Vec::new();
        self.pos = 0;
    }
}

/// SHA3-256 of `input[..inlen]`.
pub fn hash_h(out: &mut [u8; 32], input: &[u8], inlen: usize)
    requires
        inlen <= input@.len(),
    ensures
        final(out)@ == sha3_256_of(input@.subrange(0, inlen as int)),
{
    *out = sha3_256_digest(input, inlen);
}

/// SHA3-512 of `input[..inlen]`, written to the first 64 bytes of `out`.
pub fn hash_g(out: &mut [u8], input: &[u8], inlen: usize)
    requires
        inlen <= input@.len(),
        old(out)@.len() >= 64,
    ensures
        final(out)@.len() == old(out)@.len(),
        final(out)@.subrange(0, 64) == sha3_512_of(input@.subrange(0, inlen as int)),
        final(out)@.subrange(64, old(out)@.len() as int) == old(out)@.subrange(64, old(out)@.len() as int),
{
    let d = sha3_512_digest(input, inlen);
    copy_prefix(out, &d, 64);
    assert(out@.subrange(0, 64) =~= d@.subrange(0, 64));
    assert(out@.subrange(64, old(out)@.len() as int) =~= old(out)@.subrange(64, old(out)@.len() as int));
}

/// SHA-256 of `input[..inlen]`: the SHA-2 choice for `H`.
pub fn hash_h_sha2(out: &mut [u8; 32], input: &[u8], inlen: usize)
    requires
        inlen <= input@.len(),
    ensures
        final(out)@ == sha256_of(input@.subrange(0, inlen as int)),
{
    *out = sha2_256_digest(input, inlen);
}

/// SHA-512 of `input[..inlen]`, written to the first 64 bytes of `out`: the
/// SHA-2 choice for `G`.
pub fn hash_g_sha2(out: &mut [u8], input: &[u8], inlen: usize)
    requires
        inlen <= input@.len(),
        old(out)@.len() >= 64,
    ensures
        final(out)@.len() == old(out)@.len(),
        final(out)@.subrange(0, 64) == sha512_of(input@.subrange(0, inlen as int)),
        final(out)@.subrange(64, old(out)@.len() as int) == old(out)@.subrange(64, old(out)@.len() as int),
{
    let d = sha2_512_digest(input, inlen);
    copy_prefix(out, &d, 64);
    assert(out@.subrange(0, 64) =~= d@.subrange(0, 64));
    assert(out@.subrange(64, old(out)@.len() as int) =~= old(out)@.subrange(64, old(out)@.len() as int));
}

/// Absorbs a 32-byte seed followed by the two domain-separation bytes `x`,
/// `y`, starting the output stream afresh.
pub fn xof_absorb(state: &mut KeccakState, input: &[u8], x: u8, y: u8)
    requires
        input@.len() == KYBER_SYMBYTES,
    ensures
        final(state).absorbed@ == input@.push(x).push(y),
        final(state).pos == 0,
{
    let mut extseed: Vec<u8> = Vec::new();
    let mut i: usize = 0;
    while i < KYBER_SYMBYTES
        invariant
            input@.len() == 32,
            0 <= i <= 32,
            extseed@ == input@.subrange(0, i as int),
        decreases 32 - i,
    {
        extseed.push(input[i]);
        i = i + 1;
        assert(extseed@ =~= input@.subrange(0, i as int));
    }
    extseed.push(x);
    extseed.push(y);
    assert(input@.subrange(0, 32) =~= input@);
    state.absorbed = extseed;
    state.pos = 0;
}

/// Squeezes the next `outblocks` blocks of `XOF_BLOCKBYTES` bytes into the
/// start of `out`.
pub fn xof_squeezeblocks(out: &mut [u8], outblocks: usize, state: &mut KeccakState)
    requires
        outblocks * XOF_BLOCKBYTES <= old(out)@.len(),
        old(state).pos + outblocks * XOF_BLOCKBYTES <= usize::MAX,
    ensures
        final(out)@.len() == old(out)@.len(),
        final(out)@.subrange(0, outblocks * 168) == shake128_of(
            old(state).absorbed@,
            (old(state).pos + outblocks * 168) as nat,
        ).subrange(old(state).pos as int, old(state).pos + outblocks * 168),
        final(out)@.subrange(outblocks * 168, old(out)@.len() as int) == old(out)@.subrange(
            outblocks * 168,
            old(out)@.len() as int,
        ),
        shake128_of(old(state).absorbed@, (old(state).pos + outblocks * 168) as nat).len()
            == old(state).pos + outblocks * 168,
        final(state).absorbed@ == old(state).absorbed@,
        final(state).pos == old(state).pos + outblocks * 168,
{
    let n = outblocks * XOF_BLOCKBYTES;
    let total = state.pos + n;
    let mut stream: Vec<u8> = Vec::new();
    let mut i: usize = 0;
    while i < total
        invariant
            0 <= i <= total,
            stream@.len() == i,
        decreases total - i,
    {
        stream.push(0u8);
        i = i + 1;
    }
    shake128_fill(state.absorbed.as_slice(), stream.as_mut_slice());
    let start = state.pos;
    let mut j: usize = 0;
    while j < n
        invariant
            n == outblocks * 168,
            total == start + n,
            n <= out@.len() == old(out)@.len(),
            stream@.len() == total,
            0 <= j <= n,
            forall|k: int| 0 <= k < j ==> out@[k] == stream@[start + k],
            forall|k: int| j <= k < out@.len() ==> out@[k] == old(out)@[k],
        decreases n - j,
    {
        out[j] = stream[start + j];
        j = j + 1;
    }
    assert(out@.subrange(0, n as int) =~= stream@.subrange(start as int, total as int));
    assert(out@.subrange(n as int, old(out)@.len() as int) =~= old(out)@.subrange(n as int, old(out)@.len() as int));
    state.pos = total;
}

/// SHAKE256 of `key || nonce`, `outbytes` bytes into the start of `out`.
pub fn prf(out: &mut [u8], outbytes: usize, key: &[u8], nonce: u8)
    requires
        key@.len() == KYBER_SYMBYTES,
        outbytes <= old(out)@.len(),
    ensures
        final(out)@.len() == old(out)@.len(),
        final(out)@.subrange(0, outbytes as int) == shake256_of(key@.push(nonce), outbytes as nat),
        final(out)@.subrange(outbytes as int, old(out)@.len() as int) == old(out)@.subrange(
            outbytes as int,
            old(out)@.len() as int,
        ),
{
    let mut extkey: Vec<u8> = Vec::new();
    let mut i: usize = 0;
    while i < KYBER_SYMBYTES
        invariant
            key@.len() == 32,
            0 <= i <= 32,
            extkey@ == key@.subrange(0, i as int),
        decreases 32 - i,
    {
        extkey.push(key[i]);
        i = i + 1;
        assert(extkey@ =~= key@.subrange(0, i as int));
    }
    extkey.push(nonce);
    assert(key@.subrange(0, 32) =~= key@);
    let mut stream: Vec<u8> = Vec::new();
    let mut j: usize = 0;
    while j < outbytes
        invariant
            0 <= j <= outbytes,
            stream@.len() == j,
        decreases outbytes - j,
    {
        stream.push(0u8);
        j = j + 1;
    }
    shake256_fill(extkey.as_slice(), stream.as_mut_slice());
    copy_prefix(out, stream.as_slice(), outbytes);
    assert(out@.subrange(0, outbytes as int) =~= stream@);
    assert(out@.subrange(outbytes as int, old(out)@.len() as int) =~= old(out)@.subrange(
        outbytes as int,
        old(out)@.len() as int,
    ));
}

/// SHAKE256 of `input[..inlen]`, `KYBER_SSBYTES` bytes into the start of `out`.
pub fn kdf(out: &mut [u8], input: &[u8], inlen: usize)
    requires
        inlen <= input@.len(),
        KYBER_SSBYTES <= old(out)@.len(),
    ensures
        final(out)@.len() == old(out)@.len(),
        final(out)@.subrange(0, 32) == shake256_of(input@.subrange(0, inlen as int), 32),
        final(out)@.subrange(32, old(out)@.len() as int) == old(out)@.subrange(32, old(out)@.len() as int),
{
    let mut msg: Vec<u8> = Vec::new();
    let mut i: usize = 0;
    while i < inlen
        invariant
            inlen <= input@.len(),
            0 <= i <= inlen,
            msg@ == input@.subrange(0, i as int),
        decreases inlen - i,
    {
        msg.push(input[i]);
        i = i + 1;
        assert(msg@ =~= input@.subrange(0, i as int));
    }
    let mut stream: [u8; 32] = [0u8; 32];
    shake256_fill(msg.as_slice(), &mut stream);
    copy_prefix(out, &stream, KYBER_SSBYTES);
    assert(out@.subrange(0, 32) =~= stream@);
    assert(out@.subrange(32, old(out)@.len() as int) =~= old(out)@.subrange(32, old(out)@.len() as int));
}

} // verus!
