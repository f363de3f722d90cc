//! SHA-512 (FIPS 180-4): the compression function, the padding and a
//! streaming hasher.
use vstd::prelude::*;

verus! {

/// Rotation right by `n` bits, `0 < n < 64`.
pub open spec fn rotr(x: u64, n: u64) -> u64 {
    (x >> n) | (x << (64u64 - n))
}

pub open spec fn ch_spec(x: u64, y: u64, z: u64) -> u64 {
    (x & y) ^ (!x & z)
}

pub open spec fn maj_spec(x: u64, y: u64, z: u64) -> u64 {
    (x & y) ^ (x & z) ^ (y & z)
}

pub open spec fn big_sigma0_spec(x: u64) -> u64 {
    rotr(x, 28) ^ rotr(x, 34) ^ rotr(x, 39)
}

pub open spec fn big_sigma1_spec(x: u64) -> u64 {
    rotr(x, 14) ^ rotr(x, 18) ^ rotr(x, 41)
}

pub open spec fn sigma0_spec(x: u64) -> u64 {
    rotr(x, 1) ^ rotr(x, 8) ^ (x >> 7u64)
}

pub open spec fn sigma1_spec(x: u64) -> u64 {
    rotr(x, 19) ^ rotr(x, 61) ^ (x >> 6u64)
}

/// The round constants.
pub open spec fn round_constant(t: usize) -> u64 {
    match t {
        0 => 0x428a2f98d728ae22u64,
        1 => 0x7137449123ef65cdu64,
        2 => 0xb5c0fbcfec4d3b2fu64,
        3 => 0xe9b5dba58189dbbcu64,
        4 => 0x3956c25bf348b538u64,
        5 => 0x59f111f1b605d019u64,
        6 => 0x923f82a4af194f9bu64,
        7 => 0xab1c5ed5da6d8118u64,
        8 => 0xd807aa98a3030242u64,
        9 => 0x12835b0145706fbeu64,
        10 => 0x243185be4ee4b28cu64,
        11 => 0x550c7dc3d5ffb4e2u64,
        12 => 0x72be5d74f27b896fu64,
        13 => 0x80deb1fe3b1696b1u64,
        14 => 0x9bdc06a725c71235u64,
        15 => 0xc19bf174cf692694u64,
        16 => 0xe49b69c19ef14ad2u64,
        17 => 0xefbe4786384f25e3u64,
        18 => 0x0fc19dc68b8cd5b5u64,
        19 => 0x240ca1cc77ac9c65u64,
        20 => 0x2de92c6f592b0275u64,
        21 => 0x4a7484aa6ea6e483u64,
        22 => 0x5cb0a9dcbd41fbd4u64,
        23 => 0x76f988da831153b5u64,
        24 => 0x983e5152ee66dfabu64,
        25 => 0xa831c66d2db43210u64,
        26 => 0xb00327c898fb213fu64,
        27 => 0xbf597fc7beef0ee4u64,
        28 => 0xc6e00bf33da88fc2u64,
        29 => 0xd5a79147930aa725u64,
        30 => 0x06ca6351e003826fu64,
        31 => 0x142929670a0e6e70u64,
        32 => 0x27b70a8546d22ffcu64,
        33 => 0x2e1b21385c26c926u64,
        34 => 0x4d2c6dfc5ac42aedu64,
        35 => 0x53380d139d95b3dfu64,
        36 => 0x650a73548baf63deu64,
        37 => 0x766a0abb3c77b2a8u64,
        38 => 0x81c2c92e47edaee6u64,
        39 => 0x92722c851482353bu64,
        40 => 0xa2bfe8a14cf10364u64,
        41 => 0xa81a664bbc423001u64,
        42 => 0xc24b8b70d0f89791u64,
        43 => 0xc76c51a30654be30u64,
        44 => 0xd192e819d6ef5218u64,
        45 => 0xd69906245565a910u64,
        46 => 0xf40e35855771202au64,
        47 => 0x106aa07032bbd1b8u64,
        48 => 0x19a4c116b8d2d0c8u64,
        49 => 0x1e376c085141ab53u64,
        50 => 0x2748774cdf8eeb99u64,
        51 => 0x34b0bcb5e19b48a8u64,
        52 => 0x391c0cb3c5c95a63u64,
        53 => 0x4ed8aa4ae3418acbu64,
        54 => 0x5b9cca4f7763e373u64,
        55 => 0x682e6ff3d6b2b8a3u64,
        56 => 0x748f82ee5defb2fcu64,
        57 => 0x78a5636f43172f60u64,
        58 => 0x84c87814a1f0ab72u64,
        59 => 0x8cc702081a6439ecu64,
        60 => 0x90befffa23631e28u64,
        61 => 0xa4506cebde82bde9u64,
        62 => 0xbef9a3f7b2c67915u64,
        63 => 0xc67178f2e372532bu64,
        64 => 0xca273eceea26619cu64,
        65 => 0xd186b8c721c0c207u64,
        66 => 0xeada7dd6cde0eb1eu64,
        67 => 0xf57d4f7fee6ed178u64,
        68 => 0x06f067aa72176fbau64,
        69 => 0x0a637dc5a2c898a6u64,
        70 => 0x113f9804bef90daeu64,
        71 => 0x1b710b35131c471bu64,
        72 => 0x28db77f523047d84u64,
        73 => 0x32caab7b40c72493u64,
        74 => 0x3c9ebe0a15c9bebcu64,
        75 => 0x431d67c49c100d4cu64,
        76 => 0x4cc5d4becb3e42b6u64,
        77 => 0x597f299cfc657e2au64,
        78 => 0x5fcb6fab3ad6faecu64,
        _ => 0x6c44198c4a475817u64,
    }
}

/// The initial hash value.
pub open spec fn initial_hash(i: usize) -> u64 {
    match i {
        0 => 0x6a09e667f3bcc908u64,
        1 => 0xbb67ae8584caa73bu64,
        2 => 0x3c6ef372fe94f82bu64,
        3 => 0xa54ff53a5f1d36f1u64,
        4 => 0x510e527fade682d1u64,
        5 => 0x9b05688c2b3e6c1fu64,
        6 => 0x1f83d9abfb41bd6bu64,
        _ => 0x5be0cd19137e2179u64,
    }
}

pub open spec fn initial_state() -> Seq<u64> {
    Seq::new(8, |i: int| initial_hash(i as usize))
}

/// Word `i` of a block, big-endian.
pub open spec fn block_word(b: Seq<u8>, i: int) -> u64 {
    ((b[8 * i + 0] as u64) << 56u64) | ((b[8 * i + 1] as u64) << 48u64) | ((b[8 * i + 2] as u64) << 40u64) | ((b[8 * i + 3] as u64) << 32u64) | ((b[8 * i + 4] as u64) << 24u64) | ((b[8 * i + 5] as u64) << 16u64) | ((b[8 * i + 6] as u64) << 8u64) | ((b[8 * i + 7] as u64) << 0u64)
}

/// Word `t` of the message schedule of a block.
pub open spec fn schedule(block: Seq<u8>, t: nat) -> u64
    decreases t,
{
    if t < 16 {
        block_word(block, t as int)
    } else {
        sigma1_spec(schedule(block, (t - 2) as nat)).wrapping_add(
            schedule(block, (t - 7) as nat),
        ).wrapping_add(sigma0_spec(schedule(block, (t - 15) as nat))).wrapping_add(
            schedule(block, (t - 16) as nat),
        )
    }
}

/// The working variables `a ..= h` after `t` rounds on a block from `h`.
pub open spec fn round_state(h: Seq<u64>, block: Seq<u8>, t: nat) -> Seq<u64>
    decreases t,
{
    if t == 0 {
        h
    } else {
        let s = round_state(h, block, (t - 1) as nat);
        let t1 = s[7].wrapping_add(big_sigma1_spec(s[4])).wrapping_add(
            ch_spec(s[4], s[5], s[6]),
        ).wrapping_add(round_constant((t - 1) as usize)).wrapping_add(schedule(block, (t - 1) as nat));
        let t2 = big_sigma0_spec(s[0]).wrapping_add(maj_spec(s[0], s[1], s[2]));
        seq![t1.wrapping_add(t2), s[0], s[1], s[2], s[3].wrapping_add(t1), s[4], s[5], s[6]]
    }
}

/// The compression function: the hash value after one more block.
pub open spec fn compress(h: Seq<u64>, block: Seq<u8>) -> Seq<u64> {
    Seq::new(8, |i: int| h[i].wrapping_add(round_state(h, block, 80)[i]))
}

/// The hash value after the first `n` blocks of `m`.
pub open spec fn hash_blocks(m: Seq<u8>, n: nat) -> Seq<u64>
    decreases n,
{
    if n == 0 {
        initial_state()
    } else {
        compress(hash_blocks(m, (n - 1) as nat), m.subrange(128 * (n - 1), 128 * (n as int)))
    }
}

/// The message length in bits as the standard records it: modulo `2^128`.
pub open spec fn bit_length(len: nat) -> u128 {
    ((8 * len) % (0x100000000000000000000000000000000 as nat)) as u128
}

/// A 128-bit length, big-endian.
pub open spec fn length_bytes(x: u128) -> Seq<u8> {
    Seq::new(16, |i: int| (x >> ((8 * (15 - i)) as u128)) as u8)
}

/// The padded message: a one bit, zeros, and the length, to a multiple of
/// 128 bytes.
pub open spec fn pad(m: Seq<u8>) -> Seq<u8> {
    m + seq![0x80u8] + Seq::new(((239 - m.len() % 128) % 128) as nat, |i: int| 0u8) + length_bytes(
        bit_length(m.len()),
    )
}

/// The digest bytes of a hash value, big-endian.
pub open spec fn digest_bytes(h: Seq<u64>) -> Seq<u8> {
    Seq::new(64, |j: int| (h[j / 8] >> ((8 * (7 - j % 8)) as u64)) as u8)
}

/// The SHA-512 digest of a message.
pub open spec fn sha512_spec(m: Seq<u8>) -> Seq<u8> {
    digest_bytes(hash_blocks(pad(m), pad(m).len() / 128))
}

#[inline(always)]
fn rotr_exec(x: u64, n: u64) -> (r: u64)
    requires
        0 < n < 64,
    ensures
        r == rotr(x, n),
{
    (x >> n) | (x << (64 - n))
}

#[inline(always)]
fn ch(x: u64, y: u64, z: u64) -> (r: u64)
    ensures
        r == ch_spec(x, y, z),
{
    (x & y) ^ ((!x) & z)
}

#[inline(always)]
fn maj(x: u64, y: u64, z: u64) -> (r: u64)
    ensures
        r == maj_spec(x, y, z),
{
    (x & y) ^ (x & z) ^ (y & z)
}

#[inline(always)]
fn big_sigma0(x: u64) -> (r: u64)
    ensures
        r == big_sigma0_spec(x),
{
    rotr_exec(x, 28) ^ rotr_exec(x, 34) ^ rotr_exec(x, 39)
}

#[inline(always)]
fn big_sigma1(x: u64) -> (r: u64)
    ensures
        r == big_sigma1_spec(x),
{
    rotr_exec(x, 14) ^ rotr_exec(x, 18) ^ rotr_exec(x, 41)
}

#[inline(always)]
fn sigma0(x: u64) -> (r: u64)
    ensures
        r == sigma0_spec(x),
{
    rotr_exec(x, 1) ^ rotr_exec(x, 8) ^ (x >> 7)
}

#[inline(always)]
fn sigma1(x: u64) -> (r: u64)
    ensures
        r == sigma1_spec(x),
{
    rotr_exec(x, 19) ^ rotr_exec(x, 61) ^ (x >> 6)
}

fn round_constant_exec(t: usize) -> (r: u64)
    requires
        t < 80,
    ensures
        r == round_constant(t),
{
    match t {
        0 => 0x428a2f98d728ae22u64,
        1 => 0x7137449123ef65cdu64,
        2 => 0xb5c0fbcfec4d3b2fu64,
        3 => 0xe9b5dba58189dbbcu64,
        4 => 0x3956c25bf348b538u64,
        5 => 0x59f111f1b605d019u64,
        6 => 0x923f82a4af194f9bu64,
        7 => 0xab1c5ed5da6d8118u64,
        8 => 0xd807aa98a3030242u64,
        9 => 0x12835b0145706fbeu64,
        10 => 0x243185be4ee4b28cu64,
        11 => 0x550c7dc3d5ffb4e2u64,
        12 => 0x72be5d74f27b896fu64,
        13 => 0x80deb1fe3b1696b1u64,
        14 => 0x9bdc06a725c71235u64,
        15 => 0xc19bf174cf692694u64,
        16 => 0xe49b69c19ef14ad2u64,
        17 => 0xefbe4786384f25e3u64,
        18 => 0x0fc19dc68b8cd5b5u64,
        19 => 0x240ca1cc77ac9c65u64,
        20 => 0x2de92c6f592b0275u64,
        21 => 0x4a7484aa6ea6e483u64,
        22 => 0x5cb0a9dcbd41fbd4u64,
        23 => 0x76f988da831153b5u64,
        24 => 0x983e5152ee66dfabu64,
        25 => 0xa831c66d2db43210u64,
        26 => 0xb00327c898fb213fu64,
        27 => 0xbf597fc7beef0ee4u64,
        28 => 0xc6e00bf33da88fc2u64,
        29 => 0xd5a79147930aa725u64,
        30 => 0x06ca6351e003826fu64,
        31 => 0x142929670a0e6e70u64,
        32 => 0x27b70a8546d22ffcu64,
        33 => 0x2e1b21385c26c926u64,
        34 => 0x4d2c6dfc5ac42aedu64,
        35 => 0x53380d139d95b3dfu64,
        36 => 0x650a73548baf63deu64,
        37 => 0x766a0abb3c77b2a8u64,
        38 => 0x81c2c92e47edaee6u64,
        39 => 0x92722c851482353bu64,
        40 => 0xa2bfe8a14cf10364u64,
        41 => 0xa81a664bbc423001u64,
        42 => 0xc24b8b70d0f89791u64,
        43 => 0xc76c51a30654be30u64,
        44 => 0xd192e819d6ef5218u64,
        45 => 0xd69906245565a910u64,
        46 => 0xf40e35855771202au64,
        47 => 0x106aa07032bbd1b8u64,
        48 => 0x19a4c116b8d2d0c8u64,
        49 => 0x1e376c085141ab53u64,
        50 => 0x2748774cdf8eeb99u64,
        51 => 0x34b0bcb5e19b48a8u64,
        52 => 0x391c0cb3c5c95a63u64,
        53 => 0x4ed8aa4ae3418acbu64,
        54 => 0x5b9cca4f7763e373u64,
        55 => 0x682e6ff3d6b2b8a3u64,
        56 => 0x748f82ee5defb2fcu64,
        57 => 0x78a5636f43172f60u64,
        58 => 0x84c87814a1f0ab72u64,
        59 => 0x8cc702081a6439ecu64,
        60 => 0x90befffa23631e28u64,
        61 => 0xa4506cebde82bde9u64,
        62 => 0xbef9a3f7b2c67915u64,
        63 => 0xc67178f2e372532bu64,
        64 => 0xca273eceea26619cu64,
        65 => 0xd186b8c721c0c207u64,
        66 => 0xeada7dd6cde0eb1eu64,
        67 => 0xf57d4f7fee6ed178u64,
        68 => 0x06f067aa72176fbau64,
        69 => 0x0a637dc5a2c898a6u64,
        70 => 0x113f9804bef90daeu64,
        71 => 0x1b710b35131c471bu64,
        72 => 0x28db77f523047d84u64,
        73 => 0x32caab7b40c72493u64,
        74 => 0x3c9ebe0a15c9bebcu64,
        75 => 0x431d67c49c100d4cu64,
        76 => 0x4cc5d4becb3e42b6u64,
        77 => 0x597f299cfc657e2au64,
        78 => 0x5fcb6fab3ad6faecu64,
        _ => 0x6c44198c4a475817u64,
    }
}

/// Hashing the first `n` blocks reads only those blocks.
proof fn lemma_hash_blocks_prefix(m1: Seq<u8>, m2: Seq<u8>, n: nat)
    requires
        128 * (n as int) <= m1.len(),
        128 * (n as int) <= m2.len(),
        m1.subrange(0, 128 * (n as int)) == m2.subrange(0, 128 * (n as int)),
    ensures
        hash_blocks(m1, n) == hash_blocks(m2, n),
    decreases n,
{
    if n > 0 {
        assert(m1.subrange(0, 128 * (n - 1)) =~= m1.subrange(0, 128 * (n as int)).subrange(0, 128 * (n - 1)));
        assert(m2.subrange(0, 128 * (n - 1)) =~= m2.subrange(0, 128 * (n as int)).subrange(0, 128 * (n - 1)));
        lemma_hash_blocks_prefix(m1, m2, (n - 1) as nat);
        assert(m1.subrange(128 * (n - 1), 128 * (n as int)) =~= m1.subrange(0, 128 * (n as int)).subrange(
            128 * (n - 1),
            128 * (n as int),
        ));
        assert(m2.subrange(128 * (n - 1), 128 * (n as int)) =~= m2.subrange(0, 128 * (n as int)).subrange(
            128 * (n - 1),
            128 * (n as int),
        ));
    }
}

/// A streaming SHA-512 hasher.
pub struct Sha512 {
    h: [u64; 8],
    buffer: [u8; 128],
    buffer_len: usize,
    bit_len: u128,
    absorbed: Ghost<Seq<u8>>,
}

impl View for Sha512 {
    type V = Seq<u8>;

    /// The message absorbed so far.
    closed spec fn view(&self) -> Seq<u8> {
        self.absorbed@
    }
}

impl Sha512 {
    /// The hash value covers the whole blocks absorbed, the buffer holds the
    /// rest, and the bit length counts all of it.
    pub closed spec fn wf(&self) -> bool {
        let m = self.absorbed@;
        &&& self.buffer_len < 128
        &&& self.buffer_len == m.len() % 128
        &&& self.h@ == hash_blocks(m, m.len() / 128)
        &&& self.buffer@.subrange(0, self.buffer_len as int) == m.subrange(
            m.len() - self.buffer_len,
            m.len() as int,
        )
        &&& self.bit_len == bit_length(m.len())
    }

    /// A hasher that absorbed nothing.
    pub fn new() -> (r: Self)
        ensures
            r.wf(),
            r@ == Seq::<u8>::empty(),
    {
        let h: [u64; 8] = [
            0x6a09e667f3bcc908,
            0xbb67ae8584caa73b,
            0x3c6ef372fe94f82b,
            0xa54ff53a5f1d36f1,
            0x510e527fade682d1,
            0x9b05688c2b3e6c1f,
            0x1f83d9abfb41bd6b,
            0x5be0cd19137e2179,
        ];
        let r = Sha512 {
            h,
            buffer: [0u8; 128],
            buffer_len: 0,
            bit_len: 0,
            absorbed: Ghost(Seq::empty()),
        };
        assert(r.h@ =~= initial_state());
        assert(r.buffer@.subrange(0, 0) =~= Seq::<u8>::empty().subrange(0, 0));
        r
    }

    /// Absorbs `data`.
    pub fn update(&mut self, data: &[u8])
        requires
            old(self).wf(),
        ensures
            final(self).wf(),
            final(self)@ == old(self)@ + data@,
    {
        let ghost m0 = self.absorbed@;
        let ghost m = m0 + data@;
        let n = data.len();
        let ghost nb0 = (m0.len() / 128) as nat;
        proof {
            lemma_bit_length_add(m0.len(), n as nat);
            assert(m0.subrange(0, 128 * (nb0 as int)) =~= m.subrange(0, 128 * (nb0 as int)));
            lemma_hash_blocks_prefix(m0, m, nb0);
            assert(m0.len() == 128 * nb0 + self.buffer_len);
        }
        self.bit_len = self.bit_len.wrapping_add((n as u128).wrapping_mul(8));
        let mut pos: usize = 0;
        // fill a partly filled buffer first
        if self.buffer_len > 0 {
            let needed = 128 - self.buffer_len;
            let take = if needed < n {
                needed
            } else {
                n
            };
            let mut k: usize = 0;
            let start = self.buffer_len;
            while k < take
                invariant
                    start + take <= 128,
                    take <= n == data@.len(),
                    0 <= k <= take,
                    forall|j: int| 0 <= j < start ==> self.buffer@[j] == old(self).buffer@[j],
                    self.h@ == old(self).h@,
                    self.bit_len == bit_length(m.len()),
                    self.buffer_len == start,
                    forall|j: int| 0 <= j < k ==> #[trigger] self.buffer@[start + j] == data@[j],
                decreases take - k,
            {
                self.buffer[start + k] = data[k];
                k = k + 1;
            }
            self.buffer_len = start + take;
            pos = take;
            proof {
                assert(self.buffer@.subrange(0, self.buffer_len as int) =~= m.subrange(
                    m0.len() - start,
                    m0.len() + take,
                )) by {
                    assert forall|j: int| 0 <= j < self.buffer_len implies self.buffer@[j] == m[m0.len() - start + j] by {
                        if j < start {
                            assert(old(self).buffer@.subrange(0, start as int)[j] == m0.subrange(
                                m0.len() - start,
                                m0.len() as int,
                            )[j]);
                        } else {
                            assert(self.buffer@[start + (j - start)] == data@[j - start]);
                        }
                    }
                }
            }
            if self.buffer_len == 128 {
                let block = self.buffer;
                proof {
                    assert(128 * (nb0 as int) + 128 == m0.len() + take);
                    assert(block@ =~= m.subrange(128 * (nb0 as int), 128 * (nb0 as int) + 128));
                    assert(hash_blocks(m, nb0 + 1) == compress(
                        hash_blocks(m, nb0),
                        m.subrange(128 * (nb0 as int), 128 * (nb0 as int) + 128),
                    ));
                }
                self.process_block(&block);
                self.buffer_len = 0;
                proof {
                    assert((m0.len() + take) / 128 == nb0 + 1);
                }
            } else {
                proof {
                    assert(take == n);
                    assert(m.len() == 128 * nb0 + self.buffer_len);
                    assert(m.len() / 128 == nb0);
                    assert(m.len() % 128 == self.buffer_len);
                }
            }
        }
        // the absorbed prefix m[..m0.len() + pos] is hashed in whole blocks,
        // or all of data went into the buffer
        proof {
            if self.buffer_len == 0 {
                assert((m0.len() + pos) % 128 == 0);
            }
        }
        while self.buffer_len == 0 && n - pos >= 128
            invariant
                self.buffer_len < 128,
                pos <= n == data@.len(),
                m == m0 + data@,
                self.buffer_len == 0 ==> (m0.len() + pos) % 128 == 0 && self.h@ == hash_blocks(
                    m,
                    ((m0.len() + pos) / 128) as nat,
                ),
                self.buffer_len != 0 ==> pos == n && self.buffer_len == m.len() % 128
                    && self.h@ == hash_blocks(m, m.len() / 128) && self.buffer@.subrange(
                    0,
                    self.buffer_len as int,
                ) == m.subrange(m.len() - self.buffer_len, m.len() as int),
                self.bit_len == bit_length(m.len()),
            decreases n - pos,
        {
            let mut block: [u8; 128] = [0u8; 128];
            let mut k: usize = 0;
            while k < 128
                invariant
                    pos + 128 <= n == data@.len(),
                    0 <= k <= 128,
                    forall|j: int| 0 <= j < k ==> #[trigger] block@[j] == data@[pos + j],
                decreases 128 - k,
            {
                block[k] = data[pos + k];
                k = k + 1;
            }
            proof {
                let nb = ((m0.len() + pos) / 128) as nat;
                assert(block@ =~= m.subrange(128 * (nb as int), 128 * (nb as int) + 128));
            }
            self.process_block(&block);
            pos = pos + 128;
        }
        // keep the rest
        if pos < n {
            let mut k: usize = 0;
            let rest = n - pos;
            while k < rest
                invariant
                    rest == n - pos,
                    rest < 128,
                    pos <= n == data@.len(),
                    (m0.len() + pos) % 128 == 0,
                    self.h@ == hash_blocks(m, ((m0.len() + pos) / 128) as nat),
                    self.bit_len == bit_length(m.len()),
                    m == m0 + data@,
                    0 <= k <= rest,
                    forall|j: int| 0 <= j < k ==> #[trigger] self.buffer@[j] == data@[pos + j],
                decreases rest - k,
            {
                self.buffer[k] = data[pos + k];
                k = k + 1;
            }
            self.buffer_len = rest;
            proof {
                assert(self.buffer@.subrange(0, rest as int) =~= m.subrange(
                    m.len() - rest,
                    m.len() as int,
                ));
                assert((m0.len() + pos) / 128 == m.len() / 128);
            }
        } else {
            proof {
                if self.buffer_len == 0 {
                    assert(self.buffer@.subrange(0, 0) =~= m.subrange(m.len() as int, m.len() as int));
                }
            }
        }
        self.absorbed = Ghost(m);
    }

    /// Pads the absorbed message and returns its digest.
    pub fn finalize(self) -> (r: [u8; 64])
        requires
            self.wf(),
        ensures
            r@ == sha512_spec(self@),
    {
        let mut st = self;
        let ghost m = st.absorbed@;
        let ghost p = pad(m);
        let ghost nb = (m.len() / 128) as nat;
        let len0 = st.buffer_len;
        let mut block: [u8; 128] = [0u8; 128];
        let mut k: usize = 0;
        while k < len0
            invariant
                len0 == st.buffer_len < 128,
                0 <= k <= len0,
                forall|j: int| 0 <= j < k ==> block@[j] == st.buffer@[j],
                forall|j: int| k <= j < 128 ==> block@[j] == 0u8,
            decreases len0 - k,
        {
            block[k] = st.buffer[k];
            k = k + 1;
        }
        // append the bit '1'
        block[len0] = 0x80;
        let mut len = len0 + 1;
        let ghost tail = m.subrange(128 * (nb as int), m.len() as int);
        let ghost bits_seq = length_bytes(bit_length(m.len()));
        proof {
            lemma_pad_layout(m);
            assert(p.subrange(0, 128 * (nb as int)) =~= m.subrange(0, 128 * (nb as int)));
            lemma_hash_blocks_prefix(m, p, nb);
            lemma_last_blocks(m);
            assert(m.len() - len0 == 128 * (nb as int));
            assert(tail =~= st.buffer@.subrange(0, len0 as int));
            assert(block@ =~= tail + seq![0x80u8] + Seq::new((127 - len0) as nat, |i: int| 0u8));
        }
        // when the length field does not fit, this block is full
        if len > 112 {
            st.process_block(&block);
            block = [0u8; 128];
            len = 0;
            assert(block@ =~= Seq::new(128, |i: int| 0u8));
        }
        let ghost last = if len0 + 1 > 112 {
            nb + 1
        } else {
            nb
        };
        proof {
            assert(st.h@ == hash_blocks(p, last));
        }
        // append the message length, big-endian
        let bits = st.bit_len;
        let ghost pre = block@;
        let mut i: usize = 0;
        while i < 16
            invariant
                0 <= i <= 16,
                bits == st.bit_len,
                forall|j: int| 0 <= j < 112 ==> block@[j] == pre[j],
                forall|j: int| 0 <= j < i ==> #[trigger] block@[112 + j] == length_bytes(bits)[j],
            decreases 16 - i,
        {
            block[112 + i] = #[verifier::truncate] ((bits >> (8 * (15 - i)) as u128) as u8);
            i = i + 1;
        }
        proof {
            assert(bits == bit_length(m.len()));
            assert forall|j: int| 0 <= j < 128 implies block@[j] == (pre.subrange(0, 112)
                + bits_seq)[j] by {
                if j >= 112 {
                    assert(block@[112 + (j - 112)] == length_bytes(bits)[j - 112]);
                }
            }
            assert(block@ =~= pre.subrange(0, 112) + bits_seq);
            if len0 + 1 > 112 {
                assert(pre.subrange(0, 112) =~= Seq::new(112, |i: int| 0u8));
            } else {
                assert(pre.subrange(0, 112) =~= tail + seq![0x80u8] + Seq::new(
                    (111 - len0) as nat,
                    |i: int| 0u8,
                ));
            }
        }
        st.process_block(&block);
        proof {
            assert(p.len() / 128 == last + 1);
        }
        let mut out: [u8; 64] = [0u8; 64];
        let mut w: usize = 0;
        while w < 8
            invariant
                0 <= w <= 8,
                forall|j: int| 0 <= j < 8 * w ==> #[trigger] out@[j] == digest_bytes(st.h@)[j],
            decreases 8 - w,
        {
            let v = st.h[w];
            let mut b: usize = 0;
            while b < 8
                invariant
                    0 <= w < 8,
                    v == st.h@[w as int],
                    0 <= b <= 8,
                    forall|j: int| 0 <= j < 8 * w + b ==> #[trigger] out@[j] == digest_bytes(st.h@)[j],
                decreases 8 - b,
            {
                out[8 * w + b] = #[verifier::truncate] ((v >> (8 * (7 - b)) as u64) as u8);
                proof {
                    let j = 8 * w + b;
                    assert(j / 8 == w && j % 8 == b);
                }
                b = b + 1;
            }
            w = w + 1;
        }
        assert(out@ =~= digest_bytes(st.h@));
        out
    }

    /// Compresses one block into the hash value.
    fn process_block(&mut self, block: &[u8; 128])
        ensures
            final(self).h@ == compress(old(self).h@, block@),
            final(self).buffer == old(self).buffer,
            final(self).buffer_len == old(self).buffer_len,
            final(self).bit_len == old(self).bit_len,
            final(self).absorbed == old(self).absorbed,
    {
        let mut w: [u64; 80] = [0u64; 80];
        let mut t: usize = 0;
        while t < 16
            invariant
                0 <= t <= 16,
                forall|j: int| 0 <= j < t ==> #[trigger] w@[j] == schedule(block@, j as nat),
            decreases 16 - t,
        {
            w[t] = ((block[8 * t + 0] as u64) << 56) | ((block[8 * t + 1] as u64) << 48) | ((block[8 * t + 2] as u64) << 40) | ((block[8 * t + 3] as u64) << 32) | ((block[8 * t + 4] as u64) << 24) | ((block[8 * t + 5] as u64) << 16) | ((block[8 * t + 6] as u64) << 8) | ((block[8 * t + 7] as u64) << 0);
            t = t + 1;
        }
        while t < 80
            invariant
                16 <= t <= 80,
                forall|j: int| 0 <= j < t ==> #[trigger] w@[j] == schedule(block@, j as nat),
            decreases 80 - t,
        {
            assert(w@[t - 2] == schedule(block@, (t - 2) as nat));
            assert(w@[t - 7] == schedule(block@, (t - 7) as nat));
            assert(w@[t - 15] == schedule(block@, (t - 15) as nat));
            assert(w@[t - 16] == schedule(block@, (t - 16) as nat));
            w[t] = sigma1(w[t - 2]).wrapping_add(w[t - 7]).wrapping_add(sigma0(w[t - 15])).wrapping_add(
                w[t - 16],
            );
            t = t + 1;
        }
        let ghost h0 = self.h@;
        let mut a = self.h[0];
        let mut b = self.h[1];
        let mut c = self.h[2];
        let mut d = self.h[3];
        let mut e = self.h[4];
        let mut f = self.h[5];
        let mut g = self.h[6];
        let mut h = self.h[7];
        assert(seq![a, b, c, d, e, f, g, h] =~= round_state(h0, block@, 0));
        let mut t: usize = 0;
        while t < 80
            invariant
                0 <= t <= 80,
                h0 == self.h@,
                forall|j: int| 0 <= j < 80 ==> #[trigger] w@[j] == schedule(block@, j as nat),
                seq![a, b, c, d, e, f, g, h] == round_state(h0, block@, t as nat),
            decreases 80 - t,
        {
            let ghost s = round_state(h0, block@, t as nat);
            assert(a == s[0] && b == s[1] && c == s[2] && d == s[3]);
            assert(e == s[4] && f == s[5] && g == s[6] && h == s[7]);
            let t1 = h.wrapping_add(big_sigma1(e)).wrapping_add(ch(e, f, g)).wrapping_add(
                round_constant_exec(t),
            ).wrapping_add(w[t]);
            let t2 = big_sigma0(a).wrapping_add(maj(a, b, c));
            h = g;
            g = f;
            f = e;
            e = d.wrapping_add(t1);
            d = c;
            c = b;
            b = a;
            a = t1.wrapping_add(t2);
            t = t + 1;
            assert(seq![a, b, c, d, e, f, g, h] =~= round_state(h0, block@, t as nat));
        }
        let ghost s = round_state(h0, block@, 80);
        assert(a == s[0] && b == s[1] && c == s[2] && d == s[3]);
        assert(e == s[4] && f == s[5] && g == s[6] && h == s[7]);
        self.h[0] = self.h[0].wrapping_add(a);
        self.h[1] = self.h[1].wrapping_add(b);
        self.h[2] = self.h[2].wrapping_add(c);
        self.h[3] = self.h[3].wrapping_add(d);
        self.h[4] = self.h[4].wrapping_add(e);
        self.h[5] = self.h[5].wrapping_add(f);
        self.h[6] = self.h[6].wrapping_add(g);
        self.h[7] = self.h[7].wrapping_add(h);
        assert(self.h@ =~= compress(h0, block@));
    }
}

/// The recorded bit length after more bytes.
proof fn lemma_bit_length_add(a: nat, n: nat)
    requires
        n <= usize::MAX,
    ensures
        (bit_length(a) as u128).wrapping_add((n as u128).wrapping_mul(8)) == bit_length(a + n),
{
    let M = 0x100000000000000000000000000000000int;
    assert((n as u128) as nat == n);
    assert(((n as u128).wrapping_mul(8)) as int == ((n as int) * 8) % M);
    vstd::arithmetic::div_mod::lemma_add_mod_noop(8 * (a as int), 8 * (n as int), M);
    assert(8 * (a + n) == 8 * a + 8 * n);
    let x = (8 * (a as int)) % M;
    let y = (8 * (n as int)) % M;
    assert(0 <= x < M && 0 <= y < M);
    if x + y >= M {
        vstd::arithmetic::div_mod::lemma_fundamental_div_mod_converse(x + y, M, 1, x + y - M);
    } else {
        vstd::arithmetic::div_mod::lemma_small_mod((x + y) as nat, M as nat);
    }
}

/// Where the message, the marker and the length sit in the padded message.
proof fn lemma_pad_layout(m: Seq<u8>)
    ensures
        pad(m).len() % 128 == 0,
        pad(m).len() / 128 == m.len() / 128 + if m.len() % 128 + 1 > 112 {
            2int
        } else {
            1int
        },
        forall|j: int| 0 <= j < m.len() ==> #[trigger] pad(m)[j] == m[j],
        pad(m)[m.len() as int] == 0x80u8,
        forall|j: int| m.len() < j < pad(m).len() - 16 ==> #[trigger] pad(m)[j] == 0u8,
        forall|j: int|
            0 <= j < 16 ==> #[trigger] pad(m)[pad(m).len() - 16 + j] == length_bytes(
                bit_length(m.len()),
            )[j],
{
    let z = ((239 - m.len() % 128) % 128) as nat;
    assert(pad(m).len() == m.len() + 1 + z + 16);
}

/// The blocks of the padded message after the whole blocks of the message.
proof fn lemma_last_blocks(m: Seq<u8>)
    ensures
        ({
            let p = pad(m);
            let nb = (m.len() / 128) as int;
            let r = (m.len() % 128) as int;
            let tail = m.subrange(128 * nb, m.len() as int);
            let bits = length_bytes(bit_length(m.len()));
            &&& r + 1 > 112 ==> p.subrange(128 * nb, 128 * nb + 128) == tail + seq![0x80u8]
                + Seq::new((127 - r) as nat, |i: int| 0u8)
            &&& r + 1 > 112 ==> p.subrange(128 * nb + 128, 128 * nb + 256) == Seq::new(
                112,
                |i: int| 0u8,
            ) + bits
            &&& r + 1 <= 112 ==> p.subrange(128 * nb, 128 * nb + 128) == tail + seq![0x80u8]
                + Seq::new((111 - r) as nat, |i: int| 0u8) + bits
        }),
{
    let p = pad(m);
    let nb = (m.len() / 128) as int;
    let r = (m.len() % 128) as int;
    let tail = m.subrange(128 * nb, m.len() as int);
    let bits = length_bytes(bit_length(m.len()));
    lemma_pad_layout(m);
    assert(m.len() == 128 * nb + r);
    if r + 1 > 112 {
        assert(p.len() == 128 * nb + 256);
        let b1 = tail + seq![0x80u8] + Seq::new((127 - r) as nat, |i: int| 0u8);
        assert forall|j: int| 0 <= j < 128 implies p.subrange(128 * nb, 128 * nb + 128)[j] == b1[j] by {
            assert(p.subrange(128 * nb, 128 * nb + 128)[j] == p[128 * nb + j]);
            if j < r {
                assert(p[128 * nb + j] == m[128 * nb + j]);
            } else if j > r {
                assert(p[128 * nb + j] == 0u8);
            }
        }
        assert(p.subrange(128 * nb, 128 * nb + 128) =~= b1);
        let b2 = Seq::new(112, |i: int| 0u8) + bits;
        assert forall|j: int| 0 <= j < 128 implies p.subrange(128 * nb + 128, 128 * nb + 256)[j]
            == b2[j] by {
            assert(p.subrange(128 * nb + 128, 128 * nb + 256)[j] == p[128 * nb + 128 + j]);
            if j < 112 {
                assert(p[128 * nb + 128 + j] == 0u8);
            } else {
                assert(p[p.len() - 16 + (j - 112)] == bits[j - 112]);
            }
        }
        assert(p.subrange(128 * nb + 128, 128 * nb + 256) =~= b2);
    } else {
        assert(p.len() == 128 * nb + 128);
        let b1 = tail + seq![0x80u8] + Seq::new((111 - r) as nat, |i: int| 0u8) + bits;
        assert forall|j: int| 0 <= j < 128 implies p.subrange(128 * nb, 128 * nb + 128)[j] == b1[j] by {
            assert(p.subrange(128 * nb, 128 * nb + 128)[j] == p[128 * nb + j]);
            if j < r {
                assert(p[128 * nb + j] == m[128 * nb + j]);
            } else if j > r && j < 112 {
                assert(p[128 * nb + j] == 0u8);
            } else if j >= 112 {
                assert(p[p.len() - 16 + (j - 112)] == bits[j - 112]);
            }
        }
        assert(p.subrange(128 * nb, 128 * nb + 128) =~= b1);
    }
}

/// One-shot SHA-512.
pub fn sha512(data: &[u8]) -> (r: [u8; 64])
    ensures
        r@ == sha512_spec(data@),
{
    let mut hasher = Sha512::new();
    hasher.update(data);
    assert(hasher@ =~= data@);
    hasher.finalize()
}

} // verus!
