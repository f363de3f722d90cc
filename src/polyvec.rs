//! Vectors of `KYBER_K` polynomials and their serialised form.
use vstd::prelude::*;
use crate::params::{KYBER_K, KYBER_POLYBYTES, KYBER_POLYVECBYTES};
use crate::poly::{
    coeffs_bounded, coeffs_centred, lemma_poly_bytes_round_trip, lift, poly_add, poly_bytes,
    poly_from_bytes, poly_frombytes_at, poly_reduce, poly_sub, poly_tobytes_at, reduce_coeffs,
    Poly,
};
use crate::reduce::{centred_mod, lemma_centred_congruent, lemma_centred_mod_congruent};

verus! {

/// A vector of `KYBER_K` polynomials.
#[derive(Clone, Copy)]
pub struct Polyvec {
    pub vec: [Poly; 3],
}

impl View for Polyvec {
    type V = Seq<Seq<i16>>;

    /// The coefficients of each polynomial.
    open spec fn view(&self) -> Seq<Seq<i16>> {
        Seq::new(3, |i: int| self.vec@[i].coeffs@)
    }
}

/// Every coefficient of every polynomial lies strictly between `-q` and `q`.
pub open spec fn vec_bounded(v: Seq<Seq<i16>>) -> bool {
    forall|i: int| 0 <= i < v.len() ==> coeffs_bounded(#[trigger] v[i])
}

/// The serialised form: the packed polynomials one after another.
pub open spec fn polyvec_bytes(v: Seq<Seq<i16>>) -> Seq<u8> {
    poly_bytes(v[0]) + poly_bytes(v[1]) + poly_bytes(v[2])
}

/// The polynomials read from the first `KYBER_POLYVECBYTES` bytes.
pub open spec fn polyvec_from_bytes(b: Seq<u8>) -> Seq<Seq<i16>> {
    Seq::new(3, |i: int| poly_from_bytes(b.subrange(384 * i, 384 * i + 384)))
}

/// Each polynomial with its coefficients replaced by centred representatives.
pub open spec fn reduce_vec(v: Seq<Seq<i16>>) -> Seq<Seq<i16>> {
    Seq::new(v.len(), |i: int| reduce_coeffs(v[i]))
}

impl Polyvec {
    /// The zero vector.
    pub fn new() -> (r: Self)
        ensures
            forall|i: int, j: int| 0 <= i < 3 && 0 <= j < 256 ==> r@[i][j] == 0,
    {
        let p = Poly::new();
        Polyvec { vec: [p, p, p] }
    }
}

/// Serialises `a` into the first `KYBER_POLYVECBYTES` bytes of `r`.
pub fn polyvec_tobytes(r: &mut [u8], a: &Polyvec)
    requires
        old(r)@.len() >= KYBER_POLYVECBYTES,
        vec_bounded(a@),
    ensures
        final(r)@.len() == old(r)@.len(),
        final(r)@.subrange(0, 1152) == polyvec_bytes(a@),
        forall|j: int| 1152 <= j < old(r)@.len() ==> final(r)@[j] == old(r)@[j],
{
    let mut i: usize = 0;
    while i < KYBER_K
        invariant
            0 <= i <= 3,
            r@.len() == old(r)@.len(),
            old(r)@.len() >= 1152,
            vec_bounded(a@),
            forall|k: int, j: int|
                0 <= k < i && 0 <= j < 384 ==> r@[384 * k + j] == #[trigger] poly_bytes(a@[k])[j],
            forall|j: int| 384 * i <= j < old(r)@.len() ==> r@[j] == old(r)@[j],
        decreases 3 - i,
    {
        assert(coeffs_bounded(a@[i as int]));
        poly_tobytes_at(r, i * KYBER_POLYBYTES, &a.vec[i]);
        proof {
            assert forall|j: int| 0 <= j < 384 implies r@[384 * i + j] == poly_bytes(
                a@[i as int],
            )[j] by {
                assert(r@.subrange(384 * i, 384 * i + 384)[j] == r@[384 * i + j]);
            }
        }
        i = i + 1;
    }
    assert(r@.subrange(0, 1152) =~= polyvec_bytes(a@)) by {
        assert forall|j: int| 0 <= j < 1152 implies r@.subrange(0, 1152)[j] == polyvec_bytes(
            a@,
        )[j] by {
            let k = j / 384;
            assert(r@[384 * k + (j - 384 * k)] == poly_bytes(a@[k])[j - 384 * k]);
        }
    }
}

/// Deserialises a vector from the first `KYBER_POLYVECBYTES` bytes of `a`.
pub fn polyvec_frombytes(r: &mut Polyvec, a: &[u8])
    requires
        a@.len() >= KYBER_POLYVECBYTES,
    ensures
        final(r)@ == polyvec_from_bytes(a@),
{
    let mut i: usize = 0;
    while i < KYBER_K
        invariant
            0 <= i <= 3,
            a@.len() >= 1152,
            forall|k: int|
                0 <= k < i ==> #[trigger] r.vec@[k].coeffs@ == poly_from_bytes(
                    a@.subrange(384 * k, 384 * k + 384),
                ),
        decreases 3 - i,
    {
        poly_frombytes_at(&mut r.vec[i], a, i * KYBER_POLYBYTES);
        i = i + 1;
    }
    assert(r@ =~= polyvec_from_bytes(a@));
}

/// Replaces every coefficient by its centred representative modulo q.
pub fn polyvec_reduce(r: &mut Polyvec)
    ensures
        final(r)@ == reduce_vec(old(r)@),
{
    let mut i: usize = 0;
    while i < KYBER_K
        invariant
            0 <= i <= 3,
            forall|k: int| 0 <= k < i ==> #[trigger] r@[k] == reduce_coeffs(old(r)@[k]),
            forall|k: int| i <= k < 3 ==> #[trigger] r@[k] == old(r)@[k],
        decreases 3 - i,
    {
        let ghost old_vec = r.vec@;
        let ghost old_view = r@;
        assert(old_view[i as int] == old_vec[i as int].coeffs@);
        let mut p = r.vec[i];
        poly_reduce(&mut p);
        r.vec[i] = p;
        assert(r.vec@ == old_vec.update(i as int, p));
        assert(r@[i as int] == p.coeffs@);
        assert(forall|k: int| 0 <= k < 3 && k != i ==> #[trigger] r@[k] == old_view[k]);
        i = i + 1;
    }
    assert(r@ =~= reduce_vec(old(r)@));
}

/// Adds `b` to `r`, coefficient by coefficient, without reduction.
pub fn polyvec_add(r: &mut Polyvec, b: &Polyvec)
    requires
        forall|i: int, j: int|
            0 <= i < 3 && 0 <= j < 256 ==> i16::MIN <= #[trigger] old(r)@[i][j] + b@[i][j]
                <= i16::MAX,
    ensures
        forall|i: int, j: int|
            0 <= i < 3 && 0 <= j < 256 ==> #[trigger] final(r)@[i][j] == old(r)@[i][j] + b@[i][j],
{
    let mut i: usize = 0;
    while i < KYBER_K
        invariant
            0 <= i <= 3,
            forall|k: int, j: int|
                0 <= k < 3 && 0 <= j < 256 ==> i16::MIN <= #[trigger] old(r)@[k][j] + b@[k][j]
                    <= i16::MAX,
            forall|k: int, j: int|
                0 <= k < i && 0 <= j < 256 ==> #[trigger] r@[k][j] == old(r)@[k][j] + b@[k][j],
            forall|k: int| i <= k < 3 ==> #[trigger] r@[k] == old(r)@[k],
        decreases 3 - i,
    {
        let ghost old_vec = r.vec@;
        let ghost old_view = r@;
        assert(old_view[i as int] == old_vec[i as int].coeffs@);
        assert(b@[i as int] == b.vec@[i as int].coeffs@);
        assert(forall|j: int|
            0 <= j < 256 ==> i16::MIN <= #[trigger] r.vec@[i as int].coeffs@[j]
                + b.vec@[i as int].coeffs@[j] <= i16::MAX) by {
            assert forall|j: int| 0 <= j < 256 implies i16::MIN <= #[trigger] r.vec@[
                i as int
            ].coeffs@[j] + b.vec@[i as int].coeffs@[j] <= i16::MAX by {
                assert(r@[i as int][j] == r.vec@[i as int].coeffs@[j]);
                assert(old(r)@[i as int][j] + b@[i as int][j] <= i16::MAX);
            }
        }
        let mut p = r.vec[i];
        poly_add(&mut p, &b.vec[i]);
        r.vec[i] = p;
        assert(r.vec@ == old_vec.update(i as int, p));
        assert(r@[i as int] == p.coeffs@);
        assert(forall|k: int| 0 <= k < 3 && k != i ==> #[trigger] r@[k] == old_view[k]);
        i = i + 1;
    }
}

/// Replaces `r` by `b - r`, coefficient by coefficient, without reduction.
pub fn polyvec_sub(r: &mut Polyvec, b: &Polyvec)
    requires
        forall|i: int, j: int|
            0 <= i < 3 && 0 <= j < 256 ==> i16::MIN <= #[trigger] b@[i][j] - old(r)@[i][j]
                <= i16::MAX,
    ensures
        forall|i: int, j: int|
            0 <= i < 3 && 0 <= j < 256 ==> #[trigger] final(r)@[i][j] == b@[i][j] - old(r)@[i][j],
{
    let mut i: usize = 0;
    while i < KYBER_K
        invariant
            0 <= i <= 3,
            forall|k: int, j: int|
                0 <= k < 3 && 0 <= j < 256 ==> i16::MIN <= #[trigger] b@[k][j] - old(r)@[k][j]
                    <= i16::MAX,
            forall|k: int, j: int|
                0 <= k < i && 0 <= j < 256 ==> #[trigger] r@[k][j] == b@[k][j] - old(r)@[k][j],
            forall|k: int| i <= k < 3 ==> #[trigger] r@[k] == old(r)@[k],
        decreases 3 - i,
    {
        let ghost old_vec = r.vec@;
        let ghost old_view = r@;
        assert(old_view[i as int] == old_vec[i as int].coeffs@);
        assert(b@[i as int] == b.vec@[i as int].coeffs@);
        assert(forall|j: int|
            0 <= j < 256 ==> i16::MIN <= #[trigger] b.vec@[i as int].coeffs@[j]
                - r.vec@[i as int].coeffs@[j] <= i16::MAX) by {
            assert forall|j: int| 0 <= j < 256 implies i16::MIN <= #[trigger] b.vec@[
                i as int
            ].coeffs@[j] - r.vec@[i as int].coeffs@[j] <= i16::MAX by {
                assert(r@[i as int][j] == r.vec@[i as int].coeffs@[j]);
                assert(b@[i as int][j] - old(r)@[i as int][j] <= i16::MAX);
            }
        }
        let mut p = r.vec[i];
        poly_sub(&mut p, &b.vec[i]);
        r.vec[i] = p;
        assert(r.vec@ == old_vec.update(i as int, p));
        assert(r@[i as int] == p.coeffs@);
        assert(forall|k: int| 0 <= k < 3 && k != i ==> #[trigger] r@[k] == old_view[k]);
        i = i + 1;
    }
}


/// Serialising a reduced vector and reading it back gives every coefficient
/// as its standard representative in `[0, q)`; reducing that gives the
/// vector back.
pub proof fn lemma_polyvec_bytes_round_trip(v: Seq<Seq<i16>>)
    requires
        v.len() == 3,
        forall|i: int| 0 <= i < 3 ==> (#[trigger] v[i]).len() == 256 && coeffs_centred(v[i]),
    ensures
        forall|i: int, j: int|
            0 <= i < 3 && 0 <= j < 256 ==> #[trigger] polyvec_from_bytes(polyvec_bytes(v))[i][j] == (
            v[i][j] as int) % 3329,
        reduce_vec(polyvec_from_bytes(polyvec_bytes(v))) == reduce_vec(v),
        reduce_vec(v) == v,
{
    let b = polyvec_bytes(v);
    let w = polyvec_from_bytes(b);
    assert(b.subrange(0, 384) =~= poly_bytes(v[0]));
    assert(b.subrange(384, 768) =~= poly_bytes(v[1]));
    assert(b.subrange(768, 1152) =~= poly_bytes(v[2]));
    assert forall|i: int, j: int| 0 <= i < 3 && 0 <= j < 256 implies #[trigger] w[i][j] == (
    v[i][j] as int) % 3329 && centred_mod(w[i][j] as int) == v[i][j] by {
        assert(b.subrange(384 * i, 384 * i + 384) == poly_bytes(v[i]));
        assert forall|k: int| 0 <= k < 256 implies -3329 < #[trigger] v[i][k] < 3329 by {
            assert(coeffs_centred(v[i]));
        }
        lemma_poly_bytes_round_trip(v[i]);
        let x = v[i][j] as int;
        assert(w[i][j] == lift(x) as i16);
        assert(lift(x) == x % 3329);
        assert((lift(x) - x) % 3329 == 0) by {
            if x < 0 {
                vstd::arithmetic::div_mod::lemma_mod_multiples_basic(1, 3329);
            } else {
                vstd::arithmetic::div_mod::lemma_mod_multiples_basic(0, 3329);
            }
        }
        lemma_centred_mod_congruent(lift(x), x);
        lemma_centred_congruent(x);
        crate::reduce::lemma_centred_unique(x, x);
    }
    assert forall|i: int| 0 <= i < 3 implies #[trigger] reduce_vec(w)[i] == reduce_vec(v)[i] && reduce_vec(
        v,
    )[i] == v[i] by {
        assert forall|j: int| 0 <= j < 256 implies #[trigger] v[i][j] == centred_mod(v[i][j] as int) by {
            assert(coeffs_centred(v[i]));
            crate::reduce::lemma_centred_unique(v[i][j] as int, v[i][j] as int);
        }
        assert(reduce_vec(w)[i] =~= reduce_coeffs(w[i]));
        assert(reduce_coeffs(w[i]) =~= v[i]);
        assert(reduce_coeffs(v[i]) =~= v[i]);
    }
    assert(reduce_vec(w) =~= reduce_vec(v));
    assert(reduce_vec(v) =~= v);
}

} // verus!
