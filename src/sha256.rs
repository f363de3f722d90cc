//! SHA-256 (FIPS 180-4): the compression function, the padding and a
//! streaming hasher.
use vstd::prelude::*;

verus! {

/// Rotation right by `n` bits, `0 < n < 32`.
pub open spec fn rotr(x: u32, n: u32) -> u32 {
    (x >> n) | (x << (32u32 - n))
}

pub open spec fn ch_spec(x: u32, y: u32, z: u32) -> u32 {
    (x & y) ^ (!x & z)
}

pub open spec fn maj_spec(x: u32, y: u32, z: u32) -> u32 {
    (x & y) ^ (x & z) ^ (y & z)
}

pub open spec fn big_sigma0_spec(x: u32) -> u32 {
    rotr(x, 2) ^ rotr(x, 13) ^ rotr(x, 22)
}

pub open spec fn big_sigma1_spec(x: u32) -> u32 {
    rotr(x, 6) ^ rotr(x, 11) ^ rotr(x, 25)
}

pub open spec fn sigma0_spec(x: u32) -> u32 {
    rotr(x, 7) ^ rotr(x, 18) ^ (x >> 3u32)
}

pub open spec fn sigma1_spec(x: u32) -> u32 {
    rotr(x, 17) ^ rotr(x, 19) ^ (x >> 10u32)
}

/// The round constants.
pub open spec fn round_constant(t: usize) -> u32 {
    match t {
        0 => 0x428a2f98u32,
        1 => 0x71374491u32,
        2 => 0xb5c0fbcfu32,
        3 => 0xe9b5dba5u32,
        4 => 0x3956c25bu32,
        5 => 0x59f111f1u32,
        6 => 0x923f82a4u32,
        7 => 0xab1c5ed5u32,
        8 => 0xd807aa98u32,
        9 => 0x12835b01u32,
        10 => 0x243185beu32,
        11 => 0x550c7dc3u32,
        12 => 0x72be5d74u32,
        13 => 0x80deb1feu32,
        14 => 0x9bdc06a7u32,
        15 => 0xc19bf174u32,
        16 => 0xe49b69c1u32,
        17 => 0xefbe4786u32,
        18 => 0x0fc19dc6u32,
        19 => 0x240ca1ccu32,
        20 => 0x2de92c6fu32,
        21 => 0x4a7484aau32,
        22 => 0x5cb0a9dcu32,
        23 => 0x76f988dau32,
        24 => 0x983e5152u32,
        25 => 0xa831c66du32,
        26 => 0xb00327c8u32,
        27 => 0xbf597fc7u32,
        28 => 0xc6e00bf3u32,
        29 => 0xd5a79147u32,
        30 => 0x06ca6351u32,
        31 => 0x14292967u32,
        32 => 0x27b70a85u32,
        33 => 0x2e1b2138u32,
        34 => 0x4d2c6dfcu32,
        35 => 0x53380d13u32,
        36 => 0x650a7354u32,
        37 => 0x766a0abbu32,
        38 => 0x81c2c92eu32,
        39 => 0x92722c85u32,
        40 => 0xa2bfe8a1u32,
        41 => 0xa81a664bu32,
        42 => 0xc24b8b70u32,
        43 => 0xc76c51a3u32,
        44 => 0xd192e819u32,
        45 => 0xd6990624u32,
        46 => 0xf40e3585u32,
        47 => 0x106aa070u32,
        48 => 0x19a4c116u32,
        49 => 0x1e376c08u32,
        50 => 0x2748774cu32,
        51 => 0x34b0bcb5u32,
        52 => 0x391c0cb3u32,
        53 => 0x4ed8aa4au32,
        54 => 0x5b9cca4fu32,
        55 => 0x682e6ff3u32,
        56 => 0x748f82eeu32,
        57 => 0x78a5636fu32,
        58 => 0x84c87814u32,
        59 => 0x8cc70208u32,
        60 => 0x90befffau32,
        61 => 0xa4506cebu32,
        62 => 0xbef9a3f7u32,
        _ => 0xc67178f2u32,
    }
}

/// The initial hash value.
pub open spec fn initial_hash(i: usize) -> u32 {
    match i {
        0 => 0x6a09e667u32,
        1 => 0xbb67ae85u32,
        2 => 0x3c6ef372u32,
        3 => 0xa54ff53au32,
        4 => 0x510e527fu32,
        5 => 0x9b05688cu32,
        6 => 0x1f83d9abu32,
        _ => 0x5be0cd19u32,
    }
}

pub open spec fn initial_state() -> Seq<u32> {
    Seq::new(8, |i: int| initial_hash(i as usize))
}

/// Word `i` of a block, big-endian.
pub open spec fn block_word(b: Seq<u8>, i: int) -> u32 {
    ((b[4 * i + 0] as u32) << 24u32) | ((b[4 * i + 1] as u32) << 16u32) | ((b[4 * i + 2] as u32) << 8u32) | ((b[4 * i + 3] as u32) << 0u32)
}

/// Word `t` of the message schedule of a block.
pub open spec fn schedule(block: Seq<u8>, t: nat) -> u32
    decreases t,
{
    if t < 16 {
        block_word(block, t as int)
    } else {
        sigma1_spec(schedule(block, (t - 2) as nat)).wrapping_add(
            schedule(block, (t - 7) as nat),
        ).wrapping_add(sigma0_spec(schedule(block, (t - 15) as nat))).wrapping_add(
            schedule(block, (t - 16) as nat),
        )
    }
}

/// The working variables `a ..= h` after `t` rounds on a block from `h`.
pub open spec fn round_state(h: Seq<u32>, block: Seq<u8>, t: nat) -> Seq<u32>
    decreases t,
{
    if t == 0 {
        h
    } else {
        let s = round_state(h, block, (t - 1) as nat);
        let t1 = s[7].wrapping_add(big_sigma1_spec(s[4])).wrapping_add(
            ch_spec(s[4], s[5], s[6]),
        ).wrapping_add(round_constant((t - 1) as usize)).wrapping_add(schedule(block, (t - 1) as nat));
        let t2 = big_sigma0_spec(s[0]).wrapping_add(maj_spec(s[0], s[1], s[2]));
        seq![t1.wrapping_add(t2), s[0], s[1], s[2], s[3].wrapping_add(t1), s[4], s[5], s[6]]
    }
}

/// The compression function: the hash value after one more block.
pub open spec fn compress(h: Seq<u32>, block: Seq<u8>) -> Seq<u32> {
    Seq::new(8, |i: int| h[i].wrapping_add(round_state(h, block, 64)[i]))
}

/// The hash value after the first `n` blocks of `m`.
pub open spec fn hash_blocks(m: Seq<u8>, n: nat) -> Seq<u32>
    decreases n,
{
    if n == 0 {
        initial_state()
    } else {
        compress(hash_blocks(m, (n - 1) as nat), m.subrange(64 * (n - 1), 64 * (n as int)))
    }
}

/// The message length in bits as the standard records it: modulo `2^64`.
pub open spec fn bit_length(len: nat) -> u64 {
    ((8 * len) % (0x10000000000000000 as nat)) as u64
}

/// A 64-bit length, big-endian.
pub open spec fn length_bytes(x: u64) -> Seq<u8> {
    Seq::new(8, |i: int| (x >> ((8 * (7 - i)) as u64)) as u8)
}

/// The padded message: a one bit, zeros, and the length, to a multiple of
/// 64 bytes.
pub open spec fn pad(m: Seq<u8>) -> Seq<u8> {
    m + seq![0x80u8] + Seq::new(((119 - m.len() % 64) % 64) as nat, |i: int| 0u8) + length_bytes(
        bit_length(m.len()),
    )
}

/// The digest bytes of a hash value, big-endian.
pub open spec fn digest_bytes(h: Seq<u32>) -> Seq<u8> {
    Seq::new(32, |j: int| (h[j / 4] >> ((8 * (3 - j % 4)) as u32)) as u8)
}

/// The SHA-256 digest of a message.
pub open spec fn sha256_spec(m: Seq<u8>) -> Seq<u8> {
    digest_bytes(hash_blocks(pad(m), pad(m).len() / 64))
}

#[inline(always)]
fn rotr_exec(x: u32, n: u32) -> (r: u32)
    requires
        0 < n < 32,
    ensures
        r == rotr(x, n),
{
    (x >> n) | (x << (32 - n))
}

#[inline(always)]
fn ch(x: u32, y: u32, z: u32) -> (r: u32)
    ensures
        r == ch_spec(x, y, z),
{
    (x & y) ^ ((!x) & z)
}

#[inline(always)]
fn maj(x: u32, y: u32, z: u32) -> (r: u32)
    ensures
        r == maj_spec(x, y, z),
{
    (x & y) ^ (x & z) ^ (y & z)
}

#[inline(always)]
fn big_sigma0(x: u32) -> (r: u32)
    ensures
        r == big_sigma0_spec(x),
{
    rotr_exec(x, 2) ^ rotr_exec(x, 13) ^ rotr_exec(x, 22)
}

#[inline(always)]
fn big_sigma1(x: u32) -> (r: u32)
    ensures
        r == big_sigma1_spec(x),
{
    rotr_exec(x, 6) ^ rotr_exec(x, 11) ^ rotr_exec(x, 25)
}

#[inline(always)]
fn sigma0(x: u32) -> (r: u32)
    ensures
        r == sigma0_spec(x),
{
    rotr_exec(x, 7) ^ rotr_exec(x, 18) ^ (x >> 3)
}

#[inline(always)]
fn sigma1(x: u32) -> (r: u32)
    ensures
        r == sigma1_spec(x),
{
    rotr_exec(x, 17) ^ rotr_exec(x, 19) ^ (x >> 10)
}

fn round_constant_exec(t: usize) -> (r: u32)
    requires
        t < 64,
    ensures
        r == round_constant(t),
{
    match t {
        0 => 0x428a2f98u32,
        1 => 0x71374491u32,
        2 => 0xb5c0fbcfu32,
        3 => 0xe9b5dba5u32,
        4 => 0x3956c25bu32,
        5 => 0x59f111f1u32,
        6 => 0x923f82a4u32,
        7 => 0xab1c5ed5u32,
        8 => 0xd807aa98u32,
        9 => 0x12835b01u32,
        10 => 0x243185beu32,
        11 => 0x550c7dc3u32,
        12 => 0x72be5d74u32,
        13 => 0x80deb1feu32,
        14 => 0x9bdc06a7u32,
        15 => 0xc19bf174u32,
        16 => 0xe49b69c1u32,
        17 => 0xefbe4786u32,
        18 => 0x0fc19dc6u32,
        19 => 0x240ca1ccu32,
        20 => 0x2de92c6fu32,
        21 => 0x4a7484aau32,
        22 => 0x5cb0a9dcu32,
        23 => 0x76f988dau32,
        24 => 0x983e5152u32,
        25 => 0xa831c66du32,
        26 => 0xb00327c8u32,
        27 => 0xbf597fc7u32,
        28 => 0xc6e00bf3u32,
        29 => 0xd5a79147u32,
        30 => 0x06ca6351u32,
        31 => 0x14292967u32,
        32 => 0x27b70a85u32,
        33 => 0x2e1b2138u32,
        34 => 0x4d2c6dfcu32,
        35 => 0x53380d13u32,
        36 => 0x650a7354u32,
        37 => 0x766a0abbu32,
        38 => 0x81c2c92eu32,
        39 => 0x92722c85u32,
        40 => 0xa2bfe8a1u32,
        41 => 0xa81a664bu32,
        42 => 0xc24b8b70u32,
        43 => 0xc76c51a3u32,
        44 => 0xd192e819u32,
        45 => 0xd6990624u32,
        46 => 0xf40e3585u32,
        47 => 0x106aa070u32,
        48 => 0x19a4c116u32,
        49 => 0x1e376c08u32,
        50 => 0x2748774cu32,
        51 => 0x34b0bcb5u32,
        52 => 0x391c0cb3u32,
        53 => 0x4ed8aa4au32,
        54 => 0x5b9cca4fu32,
        55 => 0x682e6ff3u32,
        56 => 0x748f82eeu32,
        57 => 0x78a5636fu32,
        58 => 0x84c87814u32,
        59 => 0x8cc70208u32,
        60 => 0x90befffau32,
        61 => 0xa4506cebu32,
        62 => 0xbef9a3f7u32,
        _ => 0xc67178f2u32,
    }
}

/// Hashing the first `n` blocks reads only those blocks.
proof fn lemma_hash_blocks_prefix(m1: Seq<u8>, m2: Seq<u8>, n: nat)
    requires
        64 * (n as int) <= m1.len(),
        64 * (n as int) <= m2.len(),
        m1.subrange(0, 64 * (n as int)) == m2.subrange(0, 64 * (n as int)),
    ensures
        hash_blocks(m1, n) == hash_blocks(m2, n),
    decreases n,
{
    if n > 0 {
        assert(m1.subrange(0, 64 * (n - 1)) =~= m1.subrange(0, 64 * (n as int)).subrange(0, 64 * (n - 1)));
        assert(m2.subrange(0, 64 * (n - 1)) =~= m2.subrange(0, 64 * (n as int)).subrange(0, 64 * (n - 1)));
        lemma_hash_blocks_prefix(m1, m2, (n - 1) as nat);
        assert(m1.subrange(64 * (n - 1), 64 * (n as int)) =~= m1.subrange(0, 64 * (n as int)).subrange(
            64 * (n - 1),
            64 * (n as int),
        ));
        assert(m2.subrange(64 * (n - 1), 64 * (n as int)) =~= m2.subrange(0, 64 * (n as int)).subrange(
            64 * (n - 1),
            64 * (n as int),
        ));
    }
}

/// A streaming SHA-256 hasher.
pub struct Sha256 {
    h: [u32; 8],
    buffer: [u8; 64],
    buffer_len: usize,
    bit_len: u64,
    absorbed: Ghost<Seq<u8>>,
}

impl View for Sha256 {
    type V = Seq<u8>;

    /// The message absorbed so far.
    closed spec fn view(&self) -> Seq<u8> {
        self.absorbed@
    }
}

impl Sha256 {
    /// The hash value covers the whole blocks absorbed, the buffer holds the
    /// rest, and the bit length counts all of it.
    pub closed spec fn wf(&self) -> bool {
        let m = self.absorbed@;
        &&& self.buffer_len < 64
        &&& self.buffer_len == m.len() % 64
        &&& self.h@ == hash_blocks(m, m.len() / 64)
        &&& self.buffer@.subrange(0, self.buffer_len as int) == m.subrange(
            m.len() - self.buffer_len,
            m.len() as int,
        )
        &&& self.bit_len == bit_length(m.len())
    }

    /// A hasher that absorbed nothing.
    pub fn new() -> (r: Self)
        ensures
            r.wf(),
            r@ == Seq::<u8>::empty(),
    {
        let h: [u32; 8] = [
            0x6a09e667,
            0xbb67ae85,
            0x3c6ef372,
            0xa54ff53a,
            0x510e527f,
            0x9b05688c,
            0x1f83d9ab,
            0x5be0cd19,
        ];
        let r = Sha256 {
            h,
            buffer: [0u8; 64],
            buffer_len: 0,
            bit_len: 0,
            absorbed: Ghost(Seq::empty()),
        };
        assert(r.h@ =~= initial_state());
        assert(r.buffer@.subrange(0, 0) =~= Seq::<u8>::empty().subrange(0, 0));
        r
    }

    /// Absorbs `data`.
    pub fn update(&mut self, data: &[u8])
        requires
            old(self).wf(),
        ensures
            final(self).wf(),
            final(self)@ == old(self)@ + data@,
    {
        let ghost m0 = self.absorbed@;
        let ghost m = m0 + data@;
        let n = data.len();
        let ghost nb0 = (m0.len() / 64) as nat;
        proof {
            lemma_bit_length_add(m0.len(), n as nat);
            assert(m0.subrange(0, 64 * (nb0 as int)) =~= m.subrange(0, 64 * (nb0 as int)));
            lemma_hash_blocks_prefix(m0, m, nb0);
            assert(m0.len() == 64 * nb0 + self.buffer_len);
        }
        self.bit_len = self.bit_len.wrapping_add((n as u64).wrapping_mul(8));
        let mut pos: usize = 0;
        // fill a partly filled buffer first
        if self.buffer_len > 0 {
            let needed = 64 - self.buffer_len;
            let take = if needed < n {
                needed
            } else {
                n
            };
            let mut k: usize = 0;
            let start = self.buffer_len;
            while k < take
                invariant
                    start + take <= 64,
                    take <= n == data@.len(),
                    0 <= k <= take,
                    forall|j: int| 0 <= j < start ==> self.buffer@[j] == old(self).buffer@[j],
                    self.h@ == old(self).h@,
                    self.bit_len == bit_length(m.len()),
                    self.buffer_len == start,
                    forall|j: int| 0 <= j < k ==> #[trigger] self.buffer@[start + j] == data@[j],
                decreases take - k,
            {
                self.buffer[start + k] = data[k];
                k = k + 1;
            }
            self.buffer_len = start + take;
            pos = take;
            proof {
                assert(self.buffer@.subrange(0, self.buffer_len as int) =~= m.subrange(
                    m0.len() - start,
                    m0.len() + take,
                )) by {
                    assert forall|j: int| 0 <= j < self.buffer_len implies self.buffer@[j] == m[m0.len() - start + j] by {
                        if j < start {
                            assert(old(self).buffer@.subrange(0, start as int)[j] == m0.subrange(
                                m0.len() - start,
                                m0.len() as int,
                            )[j]);
                        } else {
                            assert(self.buffer@[start + (j - start)] == data@[j - start]);
                        }
                    }
                }
            }
            if self.buffer_len == 64 {
                let block = self.buffer;
                proof {
                    assert(64 * (nb0 as int) + 64 == m0.len() + take);
                    assert(block@ =~= m.subrange(64 * (nb0 as int), 64 * (nb0 as int) + 64));
                    assert(hash_blocks(m, nb0 + 1) == compress(
                        hash_blocks(m, nb0),
                        m.subrange(64 * (nb0 as int), 64 * (nb0 as int) + 64),
                    ));
                }
                self.process_block(&block);
                self.buffer_len = 0;
                proof {
                    assert((m0.len() + take) / 64 == nb0 + 1);
                }
            } else {
                proof {
                    assert(take == n);
                    assert(m.len() == 64 * nb0 + self.buffer_len);
                    assert(m.len() / 64 == nb0);
                    assert(m.len() % 64 == self.buffer_len);
                }
            }
        }
        // the absorbed prefix m[..m0.len() + pos] is hashed in whole blocks,
        // or all of data went into the buffer
        proof {
            if self.buffer_len == 0 {
                assert((m0.len() + pos) % 64 == 0);
            }
        }
        while self.buffer_len == 0 && n - pos >= 64
            invariant
                self.buffer_len < 64,
                pos <= n == data@.len(),
                m == m0 + data@,
                self.buffer_len == 0 ==> (m0.len() + pos) % 64 == 0 && self.h@ == hash_blocks(
                    m,
                    ((m0.len() + pos) / 64) as nat,
                ),
                self.buffer_len != 0 ==> pos == n && self.buffer_len == m.len() % 64
                    && self.h@ == hash_blocks(m, m.len() / 64) && self.buffer@.subrange(
                    0,
                    self.buffer_len as int,
                ) == m.subrange(m.len() - self.buffer_len, m.len() as int),
                self.bit_len == bit_length(m.len()),
            decreases n - pos,
        {
            let mut block: [u8; 64] = [0u8; 64];
            let mut k: usize = 0;
            while k < 64
                invariant
                    pos + 64 <= n == data@.len(),
                    0 <= k <= 64,
                    forall|j: int| 0 <= j < k ==> #[trigger] block@[j] == data@[pos + j],
                decreases 64 - k,
            {
                block[k] = data[pos + k];
                k = k + 1;
            }
            proof {
                let nb = ((m0.len() + pos) / 64) as nat;
                assert(block@ =~= m.subrange(64 * (nb as int), 64 * (nb as int) + 64));
            }
            self.process_block(&block);
            pos = pos + 64;
        }
        // keep the rest
        if pos < n {
            let mut k: usize = 0;
            let rest = n - pos;
            while k < rest
                invariant
                    rest == n - pos,
                    rest < 64,
                    pos <= n == data@.len(),
                    (m0.len() + pos) % 64 == 0,
                    self.h@ == hash_blocks(m, ((m0.len() + pos) / 64) as nat),
                    self.bit_len == bit_length(m.len()),
                    m == m0 + data@,
                    0 <= k <= rest,
                    forall|j: int| 0 <= j < k ==> #[trigger] self.buffer@[j] == data@[pos + j],
                decreases rest - k,
            {
                self.buffer[k] = data[pos + k];
                k = k + 1;
            }
            self.buffer_len = rest;
            proof {
                assert(self.buffer@.subrange(0, rest as int) =~= m.subrange(
                    m.len() - rest,
                    m.len() as int,
                ));
                assert((m0.len() + pos) / 64 == m.len() / 64);
            }
        } else {
            proof {
                if self.buffer_len == 0 {
                    assert(self.buffer@.subrange(0, 0) =~= m.subrange(m.len() as int, m.len() as int));
                }
            }
        }
        self.absorbed = Ghost(m);
    }

    /// Pads the absorbed message and returns its digest.
    pub fn finalize(self) -> (r: [u8; 32])
        requires
            self.wf(),
        ensures
            r@ == sha256_spec(self@),
    {
        let mut st = self;
        let ghost m = st.absorbed@;
        let ghost p = pad(m);
        let ghost nb = (m.len() / 64) as nat;
        let len0 = st.buffer_len;
        let mut block: [u8; 64] = [0u8; 64];
        let mut k: usize = 0;
        while k < len0
            invariant
                len0 == st.buffer_len < 64,
                0 <= k <= len0,
                forall|j: int| 0 <= j < k ==> block@[j] == st.buffer@[j],
                forall|j: int| k <= j < 64 ==> block@[j] == 0u8,
            decreases len0 - k,
        {
            block[k] = st.buffer[k];
            k = k + 1;
        }
        // append the bit '1'
        block[len0] = 0x80;
        let mut len = len0 + 1;
        let ghost tail = m.subrange(64 * (nb as int), m.len() as int);
        let ghost bits_seq = length_bytes(bit_length(m.len()));
        proof {
            lemma_pad_layout(m);
            assert(p.subrange(0, 64 * (nb as int)) =~= m.subrange(0, 64 * (nb as int)));
            lemma_hash_blocks_prefix(m, p, nb);
            lemma_last_blocks(m);
            assert(m.len() - len0 == 64 * (nb as int));
            assert(tail =~= st.buffer@.subrange(0, len0 as int));
            assert(block@ =~= tail + seq![0x80u8] + Seq::new((63 - len0) as nat, |i: int| 0u8));
        }
        // when the length field does not fit, this block is full
        if len > 56 {
            st.process_block(&block);
            block = [0u8; 64];
            len = 0;
            assert(block@ =~= Seq::new(64, |i: int| 0u8));
        }
        let ghost last = if len0 + 1 > 56 {
            nb + 1
        } else {
            nb
        };
        proof {
            assert(st.h@ == hash_blocks(p, last));
        }
        // append the message length, big-endian
        let bits = st.bit_len;
        let ghost pre = block@;
        let mut i: usize = 0;
        while i < 8
            invariant
                0 <= i <= 8,
                bits == st.bit_len,
                forall|j: int| 0 <= j < 56 ==> block@[j] == pre[j],
                forall|j: int| 0 <= j < i ==> #[trigger] block@[56 + j] == length_bytes(bits)[j],
            decreases 8 - i,
        {
            block[56 + i] = #[verifier::truncate] ((bits >> (8 * (7 - i)) as u64) as u8);
            i = i + 1;
        }
        proof {
            assert(bits == bit_length(m.len()));
            assert forall|j: int| 0 <= j < 64 implies block@[j] == (pre.subrange(0, 56)
                + bits_seq)[j] by {
                if j >= 56 {
                    assert(block@[56 + (j - 56)] == length_bytes(bits)[j - 56]);
                }
            }
            assert(block@ =~= pre.subrange(0, 56) + bits_seq);
            if len0 + 1 > 56 {
                assert(pre.subrange(0, 56) =~= Seq::new(56, |i: int| 0u8));
            } else {
                assert(pre.subrange(0, 56) =~= tail + seq![0x80u8] + Seq::new(
                    (55 - len0) as nat,
                    |i: int| 0u8,
                ));
            }
        }
        st.process_block(&block);
        proof {
            assert(p.len() / 64 == last + 1);
        }
        let mut out: [u8; 32] = [0u8; 32];
        let mut w: usize = 0;
        while w < 8
            invariant
                0 <= w <= 8,
                forall|j: int| 0 <= j < 4 * w ==> #[trigger] out@[j] == digest_bytes(st.h@)[j],
            decreases 8 - w,
        {
            let v = st.h[w];
            let mut b: usize = 0;
            while b < 4
                invariant
                    0 <= w < 8,
                    v == st.h@[w as int],
                    0 <= b <= 4,
                    forall|j: int| 0 <= j < 4 * w + b ==> #[trigger] out@[j] == digest_bytes(st.h@)[j],
                decreases 4 - b,
            {
                out[4 * w + b] = #[verifier::truncate] ((v >> (8 * (3 - b)) as u32) as u8);
                proof {
                    let j = 4 * w + b;
                    assert(j / 4 == w && j % 4 == b);
                }
                b = b + 1;
            }
            w = w + 1;
        }
        assert(out@ =~= digest_bytes(st.h@));
        out
    }

    /// Compresses one block into the hash value.
    fn process_block(&mut self, block: &[u8; 64])
        ensures
            final(self).h@ == compress(old(self).h@, block@),
            final(self).buffer == old(self).buffer,
            final(self).buffer_len == old(self).buffer_len,
            final(self).bit_len == old(self).bit_len,
            final(self).absorbed == old(self).absorbed,
    {
        let mut w: [u32; 64] = [0u32; 64];
        let mut t: usize = 0;
        while t < 16
            invariant
                0 <= t <= 16,
                forall|j: int| 0 <= j < t ==> #[trigger] w@[j] == schedule(block@, j as nat),
            decreases 16 - t,
        {
            w[t] = ((block[4 * t + 0] as u32) << 24) | ((block[4 * t + 1] as u32) << 16) | ((block[4 * t + 2] as u32) << 8) | ((block[4 * t + 3] as u32) << 0);
            t = t + 1;
        }
        while t < 64
            invariant
                16 <= t <= 64,
                forall|j: int| 0 <= j < t ==> #[trigger] w@[j] == schedule(block@, j as nat),
            decreases 64 - t,
        {
            assert(w@[t - 2] == schedule(block@, (t - 2) as nat));
            assert(w@[t - 7] == schedule(block@, (t - 7) as nat));
            assert(w@[t - 15] == schedule(block@, (t - 15) as nat));
            assert(w@[t - 16] == schedule(block@, (t - 16) as nat));
            w[t] = sigma1(w[t - 2]).wrapping_add(w[t - 7]).wrapping_add(sigma0(w[t - 15])).wrapping_add(
                w[t - 16],
            );
            t = t + 1;
        }
        let ghost h0 = self.h@;
        let mut a = self.h[0];
        let mut b = self.h[1];
        let mut c = self.h[2];
        let mut d = self.h[3];
        let mut e = self.h[4];
        let mut f = self.h[5];
        let mut g = self.h[6];
        let mut h = self.h[7];
        assert(seq![a, b, c, d, e, f, g, h] =~= round_state(h0, block@, 0));
        let mut t: usize = 0;
        while t < 64
            invariant
                0 <= t <= 64,
                h0 == self.h@,
                forall|j: int| 0 <= j < 64 ==> #[trigger] w@[j] == schedule(block@, j as nat),
                seq![a, b, c, d, e, f, g, h] == round_state(h0, block@, t as nat),
            decreases 64 - t,
        {
            let ghost s = round_state(h0, block@, t as nat);
            assert(a == s[0] && b == s[1] && c == s[2] && d == s[3]);
            assert(e == s[4] && f == s[5] && g == s[6] && h == s[7]);
            let t1 = h.wrapping_add(big_sigma1(e)).wrapping_add(ch(e, f, g)).wrapping_add(
                round_constant_exec(t),
            ).wrapping_add(w[t]);
            let t2 = big_sigma0(a).wrapping_add(maj(a, b, c));
            h = g;
            g = f;
            f = e;
            e = d.wrapping_add(t1);
            d = c;
            c = b;
            b = a;
            a = t1.wrapping_add(t2);
            t = t + 1;
            assert(seq![a, b, c, d, e, f, g, h] =~= round_state(h0, block@, t as nat));
        }
        let ghost s = round_state(h0, block@, 64);
        assert(a == s[0] && b == s[1] && c == s[2] && d == s[3]);
        assert(e == s[4] && f == s[5] && g == s[6] && h == s[7]);
        self.h[0] = self.h[0].wrapping_add(a);
        self.h[1] = self.h[1].wrapping_add(b);
        self.h[2] = self.h[2].wrapping_add(c);
        self.h[3] = self.h[3].wrapping_add(d);
        self.h[4] = self.h[4].wrapping_add(e);
        self.h[5] = self.h[5].wrapping_add(f);
        self.h[6] = self.h[6].wrapping_add(g);
        self.h[7] = self.h[7].wrapping_add(h);
        assert(self.h@ =~= compress(h0, block@));
    }
}

/// The recorded bit length after more bytes.
proof fn lemma_bit_length_add(a: nat, n: nat)
    requires
        n <= usize::MAX,
    ensures
        (bit_length(a) as u64).wrapping_add((n as u64).wrapping_mul(8)) == bit_length(a + n),
{
    let M = 0x10000000000000000int;
    assert((n as u64) as nat == n);
    assert(((n as u64).wrapping_mul(8)) as int == ((n as int) * 8) % M);
    vstd::arithmetic::div_mod::lemma_add_mod_noop(8 * (a as int), 8 * (n as int), M);
    assert(8 * (a + n) == 8 * a + 8 * n);
    let x = (8 * (a as int)) % M;
    let y = (8 * (n as int)) % M;
    assert(0 <= x < M && 0 <= y < M);
    if x + y >= M {
        vstd::arithmetic::div_mod::lemma_fundamental_div_mod_converse(x + y, M, 1, x + y - M);
    } else {
        vstd::arithmetic::div_mod::lemma_small_mod((x + y) as nat, M as nat);
    }
}

/// Where the message, the marker and the length sit in the padded message.
proof fn lemma_pad_layout(m: Seq<u8>)
    ensures
        pad(m).len() % 64 == 0,
        pad(m).len() / 64 == m.len() / 64 + if m.len() % 64 + 1 > 56 {
            2int
        } else {
            1int
        },
        forall|j: int| 0 <= j < m.len() ==> #[trigger] pad(m)[j] == m[j],
        pad(m)[m.len() as int] == 0x80u8,
        forall|j: int| m.len() < j < pad(m).len() - 8 ==> #[trigger] pad(m)[j] == 0u8,
        forall|j: int|
            0 <= j < 8 ==> #[trigger] pad(m)[pad(m).len() - 8 + j] == length_bytes(
                bit_length(m.len()),
            )[j],
{
    let z = ((119 - m.len() % 64) % 64) as nat;
    assert(pad(m).len() == m.len() + 1 + z + 8);
}

/// The blocks of the padded message after the whole blocks of the message.
proof fn lemma_last_blocks(m: Seq<u8>)
    ensures
        ({
            let p = pad(m);
            let nb = (m.len() / 64) as int;
            let r = (m.len() % 64) as int;
            let tail = m.subrange(64 * nb, m.len() as int);
            let bits = length_bytes(bit_length(m.len()));
            &&& r + 1 > 56 ==> p.subrange(64 * nb, 64 * nb + 64) == tail + seq![0x80u8]
                + Seq::new((63 - r) as nat, |i: int| 0u8)
            &&& r + 1 > 56 ==> p.subrange(64 * nb + 64, 64 * nb + 128) == Seq::new(
                56,
                |i: int| 0u8,
            ) + bits
            &&& r + 1 <= 56 ==> p.subrange(64 * nb, 64 * nb + 64) == tail + seq![0x80u8]
                + Seq::new((55 - r) as nat, |i: int| 0u8) + bits
        }),
{
    let p = pad(m);
    let nb = (m.len() / 64) as int;
    let r = (m.len() % 64) as int;
    let tail = m.subrange(64 * nb, m.len() as int);
    let bits = length_bytes(bit_length(m.len()));
    lemma_pad_layout(m);
    assert(m.len() == 64 * nb + r);
    if r + 1 > 56 {
        assert(p.len() == 64 * nb + 128);
        let b1 = tail + seq![0x80u8] + Seq::new((63 - r) as nat, |i: int| 0u8);
        assert forall|j: int| 0 <= j < 64 implies p.subrange(64 * nb, 64 * nb + 64)[j] == b1[j] by {
            assert(p.subrange(64 * nb, 64 * nb + 64)[j] == p[64 * nb + j]);
            if j < r {
                assert(p[64 * nb + j] == m[64 * nb + j]);
            } else if j > r {
                assert(p[64 * nb + j] == 0u8);
            }
        }
        assert(p.subrange(64 * nb, 64 * nb + 64) =~= b1);
        let b2 = Seq::new(56, |i: int| 0u8) + bits;
        assert forall|j: int| 0 <= j < 64 implies p.subrange(64 * nb + 64, 64 * nb + 128)[j]
            == b2[j] by {
            assert(p.subrange(64 * nb + 64, 64 * nb + 128)[j] == p[64 * nb + 64 + j]);
            if j < 56 {
                assert(p[64 * nb + 64 + j] == 0u8);
            } else {
                assert(p[p.len() - 8 + (j - 56)] == bits[j - 56]);
            }
        }
        assert(p.subrange(64 * nb + 64, 64 * nb + 128) =~= b2);
    } else {
        assert(p.len() == 64 * nb + 64);
        let b1 = tail + seq![0x80u8] + Seq::new((55 - r) as nat, |i: int| 0u8) + bits;
        assert forall|j: int| 0 <= j < 64 implies p.subrange(64 * nb, 64 * nb + 64)[j] == b1[j] by {
            assert(p.subrange(64 * nb, 64 * nb + 64)[j] == p[64 * nb + j]);
            if j < r {
                assert(p[64 * nb + j] == m[64 * nb + j]);
            } else if j > r && j < 56 {
                assert(p[64 * nb + j] == 0u8);
            } else if j >= 56 {
                assert(p[p.len() - 8 + (j - 56)] == bits[j - 56]);
            }
        }
        assert(p.subrange(64 * nb, 64 * nb + 64) =~= b1);
    }
}

/// One-shot SHA-256.
pub fn sha256(data: &[u8]) -> (r: [u8; 32])
    ensures
        r@ == sha256_spec(data@),
{
    let mut hasher = Sha256::new();
    hasher.update(data);
    assert(hasher@ =~= data@);
    hasher.finalize()
}

} // verus!
