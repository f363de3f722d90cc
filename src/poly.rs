//! Polynomials of degree 256 with 16-bit coefficients, their arithmetic and
//! their 12-bit packed byte form.
use vstd::prelude::*;
use crate::params::{KYBER_N, KYBER_Q, KYBER_POLYBYTES, KYBER_SYMBYTES};
use crate::reduce::{barrett_reduce, centred_mod, is_centred};

verus! {

/// A polynomial: `KYBER_N` signed coefficients.
#[derive(Clone, Copy)]
pub struct Poly {
    pub coeffs: [i16; 256],
}

/// Every coefficient lies strictly between `-q` and `q`.
pub open spec fn coeffs_bounded(c: Seq<i16>) -> bool {
    forall|i: int| 0 <= i < c.len() ==> -3329 < #[trigger] c[i] < 3329
}

/// Every coefficient is a centred representative modulo q.
pub open spec fn coeffs_centred(c: Seq<i16>) -> bool {
    forall|i: int| 0 <= i < c.len() ==> is_centred(#[trigger] c[i] as int)
}

/// Every coefficient is a standard representative in `[0, q)`.
pub open spec fn coeffs_canonical(c: Seq<i16>) -> bool {
    forall|i: int| 0 <= i < c.len() ==> 0 <= #[trigger] c[i] < 3329
}

/// A coefficient above `-q`, moved into `[0, q)` when negative.
pub open spec fn lift(c: int) -> int {
    if c < 0 {
        c + 3329
    } else {
        c
    }
}

/// The byte at position `j` of the packed form: each pair of lifted
/// coefficients `x0, x1` becomes three bytes holding `x0` in the low twelve
/// bits and `x1` in the high twelve bits, little-endian.
pub open spec fn packed_byte(c: Seq<i16>, j: int) -> u8 {
    let x0 = lift(c[2 * (j / 3)] as int);
    let x1 = lift(c[2 * (j / 3) + 1] as int);
    if j % 3 == 0 {
        (x0 % 256) as u8
    } else if j % 3 == 1 {
        (x0 / 256 + (x1 % 16) * 16) as u8
    } else {
        (x1 / 16) as u8
    }
}

/// The packed form of 256 coefficients: 384 bytes.
pub open spec fn poly_bytes(c: Seq<i16>) -> Seq<u8> {
    Seq::new(384, |j: int| packed_byte(c, j))
}

/// The coefficient at position `k` read back from packed bytes: a twelve-bit
/// value.
pub open spec fn unpacked_coeff(b: Seq<u8>, k: int) -> i16 {
    let i = k / 2;
    if k % 2 == 0 {
        (b[3 * i] + (b[3 * i + 1] % 16) * 256) as i16
    } else {
        (b[3 * i + 1] / 16 + b[3 * i + 2] * 16) as i16
    }
}

/// The 256 coefficients read from the first 384 packed bytes.
pub open spec fn poly_from_bytes(b: Seq<u8>) -> Seq<i16> {
    Seq::new(256, |k: int| unpacked_coeff(b, k))
}

/// Each coefficient replaced by its centred representative.
pub open spec fn reduce_coeffs(c: Seq<i16>) -> Seq<i16> {
    Seq::new(c.len(), |i: int| centred_mod(c[i] as int) as i16)
}

proof fn lemma_lift_bits(c: i16)
    by (bit_vector)
    requires
        -3329 < c < 3329,
    ensures
        c < 0 ==> (c >> 15i16) & 3329i16 == 3329i16,
        c >= 0 ==> (c >> 15i16) & 3329i16 == 0i16,
{
}

proof fn lemma_pack_bits(x0: u16, x1: u16)
    by (bit_vector)
    requires
        x0 < 4096,
        x1 < 4096,
    ensures
        (x0 as u8) == x0 % 256,
        (((x0 >> 8u16) | (x1 << 4u16)) as u8) == x0 / 256 + (x1 % 16) * 16,
        ((x1 >> 4u16) as u8) == x1 / 16,
{
}

proof fn lemma_unpack_bits(b0: u8, b1: u8, b2: u8)
    by (bit_vector)
    ensures
        ((b0 as u16) | ((b1 as u16) << 8u16) & 0xFFFu16) == b0 + (b1 % 16) * 256,
        (((b1 >> 4u8) as u16) | ((b2 as u16) << 4u16) & 0xFFFu16) == b1 / 16 + b2 * 16,
{
}

/// A packed pair of coefficients reads back as their lifted values.
proof fn lemma_pair_round_trip(x0: int, x1: int)
    requires
        0 <= x0 < 4096,
        0 <= x1 < 4096,
    ensures
        ({
            let b0 = x0 % 256;
            let b1 = x0 / 256 + (x1 % 16) * 16;
            let b2 = x1 / 16;
            &&& 0 <= b0 < 256
            &&& 0 <= b1 < 256
            &&& 0 <= b2 < 256
            &&& b0 + (b1 % 16) * 256 == x0
            &&& b1 / 16 + b2 * 16 == x1
        }),
{
    let b1 = x0 / 256 + (x1 % 16) * 16;
    assert(b1 % 16 == x0 / 256 && b1 / 16 == x1 % 16) by {
        vstd::arithmetic::div_mod::lemma_fundamental_div_mod_converse(b1, 16, x1 % 16, x0 / 256);
    }
}

/// Unpacking the packed form gives back every coefficient moved into `[0, q)`.
pub proof fn lemma_poly_bytes_round_trip(c: Seq<i16>)
    requires
        c.len() == 256,
        coeffs_bounded(c),
    ensures
        poly_from_bytes(poly_bytes(c)) == Seq::new(256, |k: int| lift(c[k] as int) as i16),
{
    let b = poly_bytes(c);
    assert forall|k: int| 0 <= k < 256 implies #[trigger] poly_from_bytes(b)[k] == lift(
        c[k] as int,
    ) as i16 by {
        let i = k / 2;
        let x0 = lift(c[2 * i] as int);
        let x1 = lift(c[2 * i + 1] as int);
        lemma_pair_round_trip(x0, x1);
        assert(b[3 * i] == packed_byte(c, 3 * i));
        assert(b[3 * i + 1] == packed_byte(c, 3 * i + 1));
        assert(b[3 * i + 2] == packed_byte(c, 3 * i + 2));
        assert((3 * i) / 3 == i && (3 * i + 1) / 3 == i && (3 * i + 2) / 3 == i);
    }
    assert(poly_from_bytes(b) =~= Seq::new(256, |k: int| lift(c[k] as int) as i16));
}

impl Poly {
    /// The zero polynomial.
    pub fn new() -> (r: Self)
        ensures
            forall|i: int| 0 <= i < 256 ==> r.coeffs[i] == 0,
    {
        Poly { coeffs: [0i16; 256] }
    }
}

/// Writes the packed form of `a` into `r[base .. base + 384]`, leaving the
/// rest of `r` as it was.
pub(crate) fn poly_tobytes_at(r: &mut [u8], base: usize, a: &Poly)
    requires
        base + 384 <= old(r)@.len(),
        coeffs_bounded(a.coeffs@),
    ensures
        final(r)@.len() == old(r)@.len(),
        final(r)@.subrange(base as int, base + 384) == poly_bytes(a.coeffs@),
        forall|j: int|
            0 <= j < old(r)@.len() && !(base <= j < base + 384) ==> final(r)@[j] == old(r)@[j],
{
    let n = r.len();
    let mut i: usize = 0;
    while i < KYBER_N / 2
        invariant
            0 <= i <= 128,
            n == r@.len(),
            base + 384 <= r@.len(),
            r@.len() == old(r)@.len(),
            coeffs_bounded(a.coeffs@),
            forall|j: int| 0 <= j < 3 * i ==> r@[base + j] == packed_byte(a.coeffs@, j),
            forall|j: int|
                0 <= j < old(r)@.len() && !(base <= j < base + 384) ==> r@[j] == old(r)@[j],
            forall|j: int| base + 3 * i <= j < base + 384 ==> r@[j] == old(r)@[j],
        decreases 128 - i,
    {
        let mut t0: i16 = a.coeffs[2 * i];
        let mut t1: i16 = a.coeffs[2 * i + 1];
        proof {
            lemma_lift_bits(t0);
            lemma_lift_bits(t1);
        }
        // map to the standard representatives in [0, q)
        t0 = t0 + ((t0 >> 15) & KYBER_Q as i16);
        t1 = t1 + ((t1 >> 15) & KYBER_Q as i16);
        let x0 = t0 as u16;
        let x1 = t1 as u16;
        proof {
            lemma_pack_bits(x0, x1);
        }
        r[base + 3 * i] = #[verifier::truncate] (x0 as u8);
        r[base + 3 * i + 1] = #[verifier::truncate] (((x0 >> 8) | (x1 << 4)) as u8);
        r[base + 3 * i + 2] = (x1 >> 4) as u8;
        proof {
            assert forall|j: int| 3 * i <= j < 3 * i + 3 implies r@[base + j] == packed_byte(
                a.coeffs@,
                j,
            ) by {
                assert(j / 3 == i);
            }
        }
        i = i + 1;
    }
    assert(r@.subrange(base as int, base + 384) =~= poly_bytes(a.coeffs@));
}

/// Serialises a polynomial whose coefficients lie strictly between `-q` and
/// `q` into the first `KYBER_POLYBYTES` bytes of `r`.
pub fn poly_tobytes(r: &mut [u8], a: Poly)
    requires
        old(r)@.len() >= KYBER_POLYBYTES,
        coeffs_bounded(a.coeffs@),
    ensures
        final(r)@.len() == old(r)@.len(),
        final(r)@.subrange(0, 384) == poly_bytes(a.coeffs@),
        final(r)@.subrange(384, old(r)@.len() as int) == old(r)@.subrange(384, old(r)@.len() as int),
{
    poly_tobytes_at(r, 0, &a);
    assert(r@.subrange(384, old(r)@.len() as int) =~= old(r)@.subrange(384, old(r)@.len() as int));
}

/// Reads the coefficients of `r` from `a[base .. base + 384]`.
pub(crate) fn poly_frombytes_at(r: &mut Poly, a: &[u8], base: usize)
    requires
        base + 384 <= a@.len(),
    ensures
        final(r).coeffs@ == poly_from_bytes(a@.subrange(base as int, base + 384)),
{
    let ghost b = a@.subrange(base as int, base + 384);
    let n = a.len();
    let mut i: usize = 0;
    while i < KYBER_N / 2
        invariant
            0 <= i <= 128,
            n == a@.len(),
            base + 384 <= a@.len(),
            b == a@.subrange(base as int, base + 384),
            forall|k: int| 0 <= k < 2 * i ==> r.coeffs@[k] == unpacked_coeff(b, k),
        decreases 128 - i,
    {
        let b0 = a[base + 3 * i];
        let b1 = a[base + 3 * i + 1];
        let b2 = a[base + 3 * i + 2];
        proof {
            lemma_unpack_bits(b0, b1, b2);
        }
        r.coeffs[2 * i] = ((b0 as u16) | ((b1 as u16) << 8) & 0xFFF) as i16;
        r.coeffs[2 * i + 1] = (((b1 >> 4) as u16) | ((b2 as u16) << 4) & 0xFFF) as i16;
        proof {
            assert forall|k: int| 2 * i <= k < 2 * i + 2 implies r.coeffs@[k] == unpacked_coeff(
                b,
                k,
            ) by {
                assert(k / 2 == i);
            }
        }
        i = i + 1;
    }
    assert(r.coeffs@ =~= poly_from_bytes(b));
}

/// Deserialises a polynomial from the first `KYBER_POLYBYTES` bytes of `a`:
/// each coefficient is a twelve-bit value.
pub fn poly_frombytes(r: &mut Poly, a: &[u8])
    requires
        a@.len() >= KYBER_POLYBYTES,
    ensures
        final(r).coeffs@ == poly_from_bytes(a@.subrange(0, 384)),
{
    poly_frombytes_at(r, a, 0);
}

/// Replaces every coefficient by its centred representative modulo q.
pub fn poly_reduce(r: &mut Poly)
    ensures
        final(r).coeffs@ == reduce_coeffs(old(r).coeffs@),
{
    let mut i: usize = 0;
    while i < KYBER_N
        invariant
            0 <= i <= 256,
            forall|k: int| 0 <= k < i ==> r.coeffs@[k] == centred_mod(old(r).coeffs@[k] as int),
            forall|k: int| i <= k < 256 ==> r.coeffs@[k] == old(r).coeffs@[k],
        decreases 256 - i,
    {
        r.coeffs[i] = barrett_reduce(r.coeffs[i]);
        i = i + 1;
    }
    assert(r.coeffs@ =~= reduce_coeffs(old(r).coeffs@));
}

/// Adds `b` to `r` coefficient by coefficient, without reduction.
pub fn poly_add(r: &mut Poly, b: &Poly)
    requires
        forall|i: int|
            0 <= i < 256 ==> i16::MIN <= #[trigger] old(r).coeffs@[i] + b.coeffs@[i] <= i16::MAX,
    ensures
        forall|i: int|
            0 <= i < 256 ==> #[trigger] final(r).coeffs@[i] == old(r).coeffs@[i] + b.coeffs@[i],
{
    let mut i: usize = 0;
    while i < KYBER_N
        invariant
            0 <= i <= 256,
            forall|k: int|
                0 <= k < 256 ==> i16::MIN <= #[trigger] old(r).coeffs@[k] + b.coeffs@[k]
                    <= i16::MAX,
            forall|k: int| 0 <= k < i ==> #[trigger] r.coeffs@[k] == old(r).coeffs@[k] + b.coeffs@[k],
            forall|k: int| i <= k < 256 ==> #[trigger] r.coeffs@[k] == old(r).coeffs@[k],
        decreases 256 - i,
    {
        r.coeffs[i] = r.coeffs[i] + b.coeffs[i];
        i = i + 1;
    }
}

/// Replaces `r` by `a - r`, coefficient by coefficient, without reduction.
pub fn poly_sub(r: &mut Poly, a: &Poly)
    requires
        forall|i: int|
            0 <= i < 256 ==> i16::MIN <= #[trigger] a.coeffs@[i] - old(r).coeffs@[i] <= i16::MAX,
    ensures
        forall|i: int|
            0 <= i < 256 ==> #[trigger] final(r).coeffs@[i] == a.coeffs@[i] - old(r).coeffs@[i],
{
    let mut i: usize = 0;
    while i < KYBER_N
        invariant
            0 <= i <= 256,
            forall|k: int|
                0 <= k < 256 ==> i16::MIN <= #[trigger] a.coeffs@[k] - old(r).coeffs@[k]
                    <= i16::MAX,
            forall|k: int| 0 <= k < i ==> #[trigger] r.coeffs@[k] == a.coeffs@[k] - old(r).coeffs@[k],
            forall|k: int| i <= k < 256 ==> #[trigger] r.coeffs@[k] == old(r).coeffs@[k],
        decreases 256 - i,
    {
        r.coeffs[i] = a.coeffs[i] - r.coeffs[i];
        i = i + 1;
    }
}


/// The packed form depends only on the lifted coefficients.
pub proof fn lemma_poly_bytes_lift(c1: Seq<i16>, c2: Seq<i16>)
    requires
        c1.len() == 256,
        c2.len() == 256,
        forall|i: int| 0 <= i < 256 ==> lift(#[trigger] c1[i] as int) == lift(c2[i] as int),
    ensures
        poly_bytes(c1) == poly_bytes(c2),
{
    assert forall|j: int| 0 <= j < 384 implies #[trigger] poly_bytes(c1)[j] == poly_bytes(c2)[j] by {
        assert(lift(c1[2 * (j / 3)] as int) == lift(c2[2 * (j / 3)] as int));
        assert(lift(c1[2 * (j / 3) + 1] as int) == lift(c2[2 * (j / 3) + 1] as int));
    }
    assert(poly_bytes(c1) =~= poly_bytes(c2));
}

/// Unpacked coefficients are twelve-bit values.
pub proof fn lemma_unpacked_range(b: Seq<u8>, k: int)
    requires
        0 <= k < 256,
        b.len() >= 384,
    ensures
        0 <= poly_from_bytes(b)[k] < 4096,
{
    let i = k / 2;
    assert(0 <= 3 * i && 3 * i + 2 < 384);
    let b1 = b[3 * i + 1];
    assert(b1 % 16 <= 15 && b1 / 16 <= 15);
}

/// Packing the unpacked coefficients gives back the bytes.
pub proof fn lemma_poly_bytes_of_unpacked(b: Seq<u8>)
    requires
        b.len() == 384,
    ensures
        poly_bytes(poly_from_bytes(b)) == b,
{
    let c = poly_from_bytes(b);
    assert forall|j: int| 0 <= j < 384 implies #[trigger] poly_bytes(c)[j] == b[j] by {
        let i = j / 3;
        let b0 = b[3 * i] as int;
        let b1 = b[3 * i + 1] as int;
        let b2 = b[3 * i + 2] as int;
        assert(0 <= 2 * i && 2 * i + 1 < 256);
        assert((2 * i) / 2 == i && (2 * i) % 2 == 0 && (2 * i + 1) / 2 == i && (2 * i + 1) % 2 == 1);
        let x0 = b0 + (b1 % 16) * 256;
        let x1 = b1 / 16 + b2 * 16;
        assert(c[2 * i] == x0);
        assert(c[2 * i + 1] == x1);
        assert(x0 % 256 == b0 && x0 / 256 == b1 % 16) by {
            vstd::arithmetic::div_mod::lemma_fundamental_div_mod_converse(x0, 256, b1 % 16, b0);
        }
        assert(x1 % 16 == b1 / 16 && x1 / 16 == b2) by {
            vstd::arithmetic::div_mod::lemma_fundamental_div_mod_converse(x1, 16, b2, b1 / 16);
        }
        assert(b1 == (b1 / 16) * 16 + b1 % 16);
        assert(j == 3 * i || j == 3 * i + 1 || j == 3 * i + 2);
    }
    assert(poly_bytes(c) =~= b);
}


/// Bit `k` of a 32-byte message, least significant bit of each byte first.
pub open spec fn msg_bit(msg: Seq<u8>, k: int) -> u8 {
    (msg[k / 8] >> ((k % 8) as u8)) & 1u8
}

/// The bit a coefficient decodes to: whether it is closer to `q/2` than to 0.
pub open spec fn coeff_bit(c: i16) -> int {
    ((2 * lift(c as int) + 1664) / 3329) % 2
}

proof fn lemma_frommsg_bits(b: u8, j: u16)
    by (bit_vector)
    requires
        j < 8,
    ensures
        ((0u16.wrapping_sub(((b as u16) >> j) & 1u16)) & 1665u16) == if (b >> (j as u8)) & 1u8 == 1u8 {
            1665u16
        } else {
            0u16
        },
{
}

proof fn lemma_tomsg_bits(acc: u8, t: u8, j: u8, jj: u8)
    by (bit_vector)
    requires
        j < 8,
        t <= 1,
        acc < (1u8 << j) || j == 0 && acc == 0,
    ensures
        jj < j ==> ((acc | (t << j)) >> jj) & 1u8 == (acc >> jj) & 1u8,
        ((acc | (t << j)) >> j) & 1u8 == t,
        j < 7 ==> (acc | (t << j)) < (1u8 << (j + 1)),
{
}

/// Converts a 32-byte message to a polynomial: bit `k` of the message
/// becomes coefficient `k`, `(q + 1) / 2` for a one and 0 for a zero.
pub fn poly_frommsg(r: &mut Poly, msg: &[u8])
    requires
        msg@.len() >= KYBER_SYMBYTES,
    ensures
        forall|k: int|
            0 <= k < 256 ==> #[trigger] final(r).coeffs@[k] == if msg_bit(msg@, k) == 1 {
                1665i16
            } else {
                0i16
            },
{
    let mut i: usize = 0;
    while i < KYBER_N / 8
        invariant
            0 <= i <= 32,
            msg@.len() >= 32,
            forall|k: int|
                0 <= k < 8 * i ==> #[trigger] r.coeffs@[k] == if msg_bit(msg@, k) == 1 {
                    1665i16
                } else {
                    0i16
                },
        decreases 32 - i,
    {
        let mut j: usize = 0;
        while j < 8
            invariant
                0 <= i < 32,
                0 <= j <= 8,
                msg@.len() >= 32,
                forall|k: int|
                    0 <= k < 8 * i + j ==> #[trigger] r.coeffs@[k] == if msg_bit(msg@, k) == 1 {
                        1665i16
                    } else {
                        0i16
                    },
            decreases 8 - j,
        {
            proof {
                lemma_frommsg_bits(msg@[i as int], j as u16);
                let k = 8 * i + j;
                assert(k / 8 == i && k % 8 == j);
            }
            let mask: u16 = 0u16.wrapping_sub(((msg[i] as u16) >> j) & 1);
            r.coeffs[8 * i + j] = (mask & (((KYBER_Q + 1) / 2) as u16)) as i16;
            j = j + 1;
        }
        i = i + 1;
    }
}

/// Converts a polynomial whose coefficients lie strictly between `-q` and
/// `q` to a 32-byte message: bit `k` is the bit coefficient `k` decodes to.
pub fn poly_tomsg(msg: &mut [u8], a: Poly)
    requires
        old(msg)@.len() >= KYBER_SYMBYTES,
        coeffs_bounded(a.coeffs@),
    ensures
        final(msg)@.len() == old(msg)@.len(),
        forall|k: int| 0 <= k < 256 ==> #[trigger] msg_bit(final(msg)@, k) == coeff_bit(a.coeffs@[k]),
        forall|k: int| 32 <= k < old(msg)@.len() ==> final(msg)@[k] == old(msg)@[k],
{
    let mut i: usize = 0;
    while i < KYBER_N / 8
        invariant
            0 <= i <= 32,
            msg@.len() == old(msg)@.len() >= 32,
            coeffs_bounded(a.coeffs@),
            forall|k: int| 0 <= k < 8 * i ==> #[trigger] msg_bit(msg@, k) == coeff_bit(a.coeffs@[k]),
            forall|k: int| 32 <= k < old(msg)@.len() ==> msg@[k] == old(msg)@[k],
        decreases 32 - i,
    {
        let ghost before = msg@;
        let mut acc: u8 = 0;
        let mut j: usize = 0;
        while j < 8
            invariant
                0 <= i < 32,
                0 <= j <= 8,
                coeffs_bounded(a.coeffs@),
                j < 8 ==> (acc < (1u8 << (j as u8)) || j == 0 && acc == 0),
                forall|jj: int|
                    0 <= jj < j ==> #[trigger] ((acc >> (jj as u8)) & 1u8) == coeff_bit(
                        a.coeffs@[8 * i + jj],
                    ),
            decreases 8 - j,
        {
            let mut t: i16 = a.coeffs[8 * i + j];
            proof {
                lemma_lift_bits(t);
            }
            t = t + ((t >> 15) & KYBER_Q as i16);
            let x = t as u32;
            proof {
                assert(x << 1 == 2 * x) by (bit_vector)
                    requires
                        x < 3329,
                ;
            }
            let bit = ((((x << 1) + 1664) / 3329) & 1) as u8;
            proof {
                assert((((2 * x + 1664) / 3329) as u32) & 1 == ((2 * x + 1664) / 3329) % 2)
                    by (bit_vector)
                    requires
                        x < 3329,
                ;
                assert forall|jj: u8| #![trigger ((acc | (bit << (j as u8))) >> jj)] jj < 8
                    implies jj < j ==> ((acc | (bit << (j as u8))) >> jj) & 1u8 == (acc >> jj) & 1u8 by {
                    lemma_tomsg_bits(acc, bit, j as u8, jj);
                }
                lemma_tomsg_bits(acc, bit, j as u8, 0);
            }
            let next = acc | (bit << (j as u8));
            proof {
                assert forall|jj: int| 0 <= jj < j + 1 implies #[trigger] ((next >> (jj as u8)) & 1u8)
                    == coeff_bit(a.coeffs@[8 * i + jj]) by {
                    if jj < j {
                        lemma_tomsg_bits(acc, bit, j as u8, jj as u8);
                    }
                }
            }
            acc = next;
            j = j + 1;
        }
        msg[i] = acc;
        proof {
            assert forall|k: int| 0 <= k < 8 * (i + 1) implies #[trigger] msg_bit(msg@, k) == coeff_bit(
                a.coeffs@[k],
            ) by {
                if k >= 8 * i {
                    assert(k / 8 == i && k % 8 == k - 8 * i);
                    assert(a.coeffs@[8 * i + (k - 8 * i)] == a.coeffs@[k]);
                } else {
                    assert(msg_bit(before, k) == coeff_bit(a.coeffs@[k]));
                    assert(k / 8 < i);
                }
            }
        }
        i = i + 1;
    }
}

} // verus!
