//! The half-ideal cipher over a Kyber public key: a two-round Feistel-like
//! transform, keyed by a password and a session id, that masks the
//! polynomial-vector part with a pseudo-random vector derived from the seed
//! and enciphers the seed under a key derived from the masked vector.
use vstd::prelude::*;
use crate::bytes::copy_bytes;
use crate::error::HicError;
use crate::ic::{ic256_dec, ic256_enc, ic_dec_spec, ic_enc_spec, lemma_ic_round_trip};
use crate::params::{KYBER_POLYVECBYTES, KYBER_PUBLICKEYBYTES, KYBER_SYMBYTES};
use crate::poly::{
    coeffs_bounded, lemma_poly_bytes_lift, lemma_poly_bytes_of_unpacked,
    lemma_poly_bytes_round_trip, lemma_unpacked_range, lift, poly_bytes, poly_from_bytes,
    reduce_coeffs,
};
use crate::polyvec::{
    polyvec_add, polyvec_bytes, polyvec_from_bytes, polyvec_frombytes, polyvec_reduce,
    polyvec_sub, polyvec_tobytes, reduce_vec, Polyvec,
};
use crate::reduce::{
    centred_mod, lemma_centred_congruent, lemma_centred_lifted,
    lemma_centred_mod_congruent,
};
use crate::sampler::{gen_vector, gen_vector_spec, lemma_gen_vector_range};
use crate::symmetric::{hash_h, sha3_256_of};

verus! {

/// Coefficient-wise sum of two vectors.
pub open spec fn add_vec(a: Seq<Seq<i16>>, b: Seq<Seq<i16>>) -> Seq<Seq<i16>> {
    Seq::new(3, |i: int| Seq::new(256, |j: int| (a[i][j] + b[i][j]) as i16))
}

/// Coefficient-wise difference `a - b` of two vectors.
pub open spec fn sub_vec(a: Seq<Seq<i16>>, b: Seq<Seq<i16>>) -> Seq<Seq<i16>> {
    Seq::new(3, |i: int| Seq::new(256, |j: int| (a[i][j] - b[i][j]) as i16))
}

/// `H(pw || sid || x)`.
pub open spec fn keyed_hash(pw: Seq<u8>, sid: Seq<u8>, x: Seq<u8>) -> Seq<u8> {
    sha3_256_of(pw + sid + x)
}

/// The transform of a public key, or `None` when sampling the mask runs out
/// of blocks.
pub open spec fn hic_eval_spec(pk: Seq<u8>, pw: Seq<u8>, sid: Seq<u8>) -> Option<Seq<u8>> {
    let rho = pk.subrange(1152, 1184);
    match gen_vector_spec(keyed_hash(pw, sid, rho)) {
        Some(mask) => {
            let masked = polyvec_bytes(reduce_vec(add_vec(polyvec_from_bytes(pk), mask)));
            Some(masked + ic_enc_spec(rho, keyed_hash(pw, sid, masked)))
        },
        None => None,
    }
}

/// The inverse transform, or `None` when sampling the mask runs out of blocks.
pub open spec fn hic_inv_spec(icc: Seq<u8>, pw: Seq<u8>, sid: Seq<u8>) -> Option<Seq<u8>> {
    let masked = icc.subrange(0, 1152);
    let rho = ic_dec_spec(icc.subrange(1152, 1184), keyed_hash(pw, sid, masked));
    match gen_vector_spec(keyed_hash(pw, sid, rho)) {
        Some(mask) => Some(
            polyvec_bytes(reduce_vec(sub_vec(polyvec_from_bytes(icc), mask))) + rho,
        ),
        None => None,
    }
}

/// A well-formed public key: every packed coefficient is below q, as in every
/// key that Kyber's key generation produces.
pub open spec fn pk_canonical(pk: Seq<u8>) -> bool {
    forall|i: int, j: int| 0 <= i < 3 && 0 <= j < 256 ==> #[trigger] polyvec_from_bytes(pk)[i][j] < 3329
}

/// Every coefficient of the unpacked vector is a twelve-bit value.
proof fn lemma_vec_unpacked_range(b: Seq<u8>)
    requires
        b.len() >= 1152,
    ensures
        forall|i: int, j: int|
            0 <= i < 3 && 0 <= j < 256 ==> 0 <= #[trigger] polyvec_from_bytes(b)[i][j] < 4096,
{
    assert forall|i: int, j: int| 0 <= i < 3 && 0 <= j < 256 implies 0
        <= #[trigger] polyvec_from_bytes(b)[i][j] < 4096 by {
        lemma_unpacked_range(b.subrange(384 * i, 384 * i + 384), j);
    }
}

/// The serialised form of a vector is 1152 bytes, polynomial `i` at `384 * i`.
proof fn lemma_polyvec_bytes_parts(v: Seq<Seq<i16>>)
    ensures
        polyvec_bytes(v).len() == 1152,
        forall|i: int|
            0 <= i < 3 ==> #[trigger] polyvec_bytes(v).subrange(384 * i, 384 * i + 384) == poly_bytes(
                v[i],
            ),
{
    let b = polyvec_bytes(v);
    assert(b.subrange(0, 384) =~= poly_bytes(v[0]));
    assert(b.subrange(384, 768) =~= poly_bytes(v[1]));
    assert(b.subrange(768, 1152) =~= poly_bytes(v[2]));
}

/// A vector is determined by its polynomials' serialised forms.
proof fn lemma_polyvec_bytes_eq(v: Seq<Seq<i16>>, b: Seq<u8>)
    requires
        b.len() == 1152,
        forall|i: int|
            0 <= i < 3 ==> #[trigger] poly_bytes(v[i]) == b.subrange(384 * i, 384 * i + 384),
    ensures
        polyvec_bytes(v) == b,
{
    lemma_polyvec_bytes_parts(v);
    assert forall|k: int| 0 <= k < 1152 implies #[trigger] polyvec_bytes(v)[k] == b[k] by {
        let i = k / 384;
        assert(polyvec_bytes(v).subrange(384 * i, 384 * i + 384)[k - 384 * i] == polyvec_bytes(
            v,
        )[k]);
        assert(b.subrange(384 * i, 384 * i + 384)[k - 384 * i] == b[k]);
        assert(poly_bytes(v[i]) == b.subrange(384 * i, 384 * i + 384));
    }
    assert(polyvec_bytes(v) =~= b);
}

/// Inverting the transform gives back every well-formed public key: the
/// half-ideal cipher is a bijection for each password and session id.
pub proof fn lemma_hic_round_trip(pk: Seq<u8>, pw: Seq<u8>, sid: Seq<u8>)
    requires
        pk.len() == 1184,
        pw.len() == 32,
        sid.len() == 32,
        pk_canonical(pk),
        hic_eval_spec(pk, pw, sid) is Some,
    ensures
        hic_inv_spec(hic_eval_spec(pk, pw, sid)->0, pw, sid) == Some(pk),
{
    let rho = pk.subrange(1152, 1184);
    let mask = gen_vector_spec(keyed_hash(pw, sid, rho))->0;
    let t = polyvec_from_bytes(pk);
    let sum = reduce_vec(add_vec(t, mask));
    let masked = polyvec_bytes(sum);
    let kappa = keyed_hash(pw, sid, masked);
    let enc = ic_enc_spec(rho, kappa);
    let icc = masked + enc;
    assert(icc == hic_eval_spec(pk, pw, sid)->0);
    lemma_gen_vector_range(keyed_hash(pw, sid, rho));
    lemma_vec_unpacked_range(pk);
    lemma_polyvec_bytes_parts(sum);
    // the masked half and the key derived from it come back unchanged
    assert(icc.subrange(0, 1152) =~= masked);
    assert(icc.subrange(1152, 1184) =~= enc);
    lemma_ic_round_trip(rho, kappa);
    assert(ic_dec_spec(icc.subrange(1152, 1184), keyed_hash(pw, sid, icc.subrange(0, 1152)))
        == rho);
    // unpacking the masked half gives the sums moved into [0, q)
    let t2 = polyvec_from_bytes(icc);
    assert forall|i: int, j: int| 0 <= i < 3 && 0 <= j < 256 implies #[trigger] t2[i][j] == (t[i][j]
        + mask[i][j]) % 3329 by {
        assert(icc.subrange(384 * i, 384 * i + 384) =~= masked.subrange(384 * i, 384 * i + 384));
        assert(sum[i] == reduce_coeffs(add_vec(t, mask)[i]));
        assert(sum[i][j] == centred_mod(add_vec(t, mask)[i][j] as int) as i16);
        assert(add_vec(t, mask)[i][j] == t[i][j] + mask[i][j]);
        lemma_centred_congruent(t[i][j] + mask[i][j]);
        assert forall|k: int| 0 <= k < 256 implies -3329 < #[trigger] sum[i][k] < 3329 by {
            lemma_centred_congruent(add_vec(t, mask)[i][k] as int);
        }
        assert(coeffs_bounded(sum[i]));
        lemma_poly_bytes_round_trip(sum[i]);
        lemma_centred_lifted(t[i][j] + mask[i][j]);
    }
    // subtracting the same mask and reducing gives back the key's coefficients
    let out = reduce_vec(sub_vec(t2, mask));
    assert forall|i: int| 0 <= i < 3 implies #[trigger] poly_bytes(out[i]) == pk.subrange(
        384 * i,
        384 * i + 384,
    ) by {
        let b = pk.subrange(384 * i, 384 * i + 384);
        assert forall|j: int| 0 <= j < 256 implies lift(#[trigger] out[i][j] as int) == lift(
            poly_from_bytes(b)[j] as int,
        ) by {
            let x = t[i][j] as int;
            let m = mask[i][j] as int;
            assert(t2[i][j] == (x + m) % 3329);
            assert(sub_vec(t2, mask)[i][j] == (x + m) % 3329 - m);
            assert(out[i][j] == centred_mod(((x + m) % 3329 - m)) as i16);
            assert(((x + m) % 3329 - m - x) % 3329 == 0) by {
                vstd::arithmetic::div_mod::lemma_fundamental_div_mod(x + m, 3329);
                vstd::arithmetic::div_mod::lemma_mod_multiples_basic(-((x + m) / 3329), 3329);
            }
            lemma_centred_mod_congruent((x + m) % 3329 - m, x);
            lemma_centred_lifted(x);
            assert(0 <= x < 3329);
            vstd::arithmetic::div_mod::lemma_small_mod(x as nat, 3329);
            assert(poly_from_bytes(b)[j] == t[i][j]);
            lemma_centred_congruent(x);
        }
        lemma_poly_bytes_lift(out[i], poly_from_bytes(b));
        lemma_poly_bytes_of_unpacked(b);
    }
    assert forall|i: int| 0 <= i < 3 implies #[trigger] poly_bytes(out[i]) == pk.subrange(
        0,
        1152,
    ).subrange(384 * i, 384 * i + 384) by {
        assert(pk.subrange(0, 1152).subrange(384 * i, 384 * i + 384) =~= pk.subrange(
            384 * i,
            384 * i + 384,
        ));
    }
    lemma_polyvec_bytes_eq(out, pk.subrange(0, 1152));
    assert(polyvec_bytes(out) + rho =~= pk);
}

/// Computes the half-ideal cipher of the public key `pk` under `pw` and
/// `sid` into `icc`. Fails, leaving `icc` unspecified, only when sampling
/// the mask runs out of blocks.
pub fn hic_eval(
    icc: &mut [u8; 1184],
    pk: &[u8; 1184],
    pw: &[u8; 32],
    sid: &[u8; 32],
) -> (r: Result<(), HicError>)
    ensures
        r is Ok <==> hic_eval_spec(pk@, pw@, sid@) is Some,
        r is Ok ==> final(icc)@ == hic_eval_spec(pk@, pw@, sid@)->0,
        r is Err ==> r == Err::<(), HicError>(HicError::Other) && final(icc)@ == old(icc)@,
{
    // H(pw || sid || rho) is the seed of the mask
    let mut hash_in_lr: [u8; 96] = [0u8; 96];
    copy_bytes(&mut hash_in_lr, 0, pw, 0, KYBER_SYMBYTES);
    copy_bytes(&mut hash_in_lr, KYBER_SYMBYTES, sid, 0, KYBER_SYMBYTES);
    copy_bytes(&mut hash_in_lr, 2 * KYBER_SYMBYTES, pk, KYBER_POLYVECBYTES, KYBER_SYMBYTES);
    let ghost rho = pk@.subrange(1152, 1184);
    assert(hash_in_lr@.subrange(0, 96) =~= pw@ + sid@ + rho);
    let mut mask_seed_t: [u8; 32] = [0u8; 32];
    hash_h(&mut mask_seed_t, &hash_in_lr, 3 * KYBER_SYMBYTES);
    let mut in_t = Polyvec::new();
    polyvec_frombytes(&mut in_t, pk);
    let mut mask_t = Polyvec::new();
    match gen_vector(&mut mask_t, &mask_seed_t) {
        Ok(()) => {},
        Err(e) => {
            return Err(e);
        },
    }
    let ghost mask = mask_t@;
    proof {
        lemma_gen_vector_range(mask_seed_t@);
        lemma_vec_unpacked_range(pk@);
    }
    polyvec_add(&mut mask_t, &in_t);
    assert(mask_t@ =~~= add_vec(in_t@, mask));
    polyvec_reduce(&mut mask_t);
    proof {
        assert forall|i: int| 0 <= i < 3 implies coeffs_bounded(#[trigger] mask_t@[i]) by {
            assert forall|j: int| 0 <= j < 256 implies -3329 < #[trigger] mask_t@[i][j] < 3329 by {
                lemma_centred_congruent(add_vec(in_t@, mask)[i][j] as int);
            }
        }
    }
    polyvec_tobytes(icc, &mask_t);
    let ghost masked = icc@.subrange(0, 1152);
    // H(pw || sid || t') keys the cipher on the seed
    let mut hash_in_rl: [u8; 1216] = [0u8; 1216];
    copy_bytes(&mut hash_in_rl, 0, pw, 0, KYBER_SYMBYTES);
    copy_bytes(&mut hash_in_rl, KYBER_SYMBYTES, sid, 0, KYBER_SYMBYTES);
    copy_bytes(&mut hash_in_rl, 2 * KYBER_SYMBYTES, icc, 0, KYBER_POLYVECBYTES);
    assert(hash_in_rl@.subrange(0, 1216) =~= pw@ + sid@ + masked);
    let mut key: [u8; 32] = [0u8; 32];
    hash_h(&mut key, &hash_in_rl, 2 * KYBER_SYMBYTES + KYBER_POLYVECBYTES);
    let mut in_rho: [u8; 32] = [0u8; 32];
    copy_bytes(&mut in_rho, 0, pk, KYBER_POLYVECBYTES, KYBER_SYMBYTES);
    assert(in_rho@ =~= rho);
    ic256_enc(&mut in_rho, &key);
    copy_bytes(icc, KYBER_POLYVECBYTES, &in_rho, 0, KYBER_SYMBYTES);
    assert(icc@ =~= masked + in_rho@);
    Ok(())
}

/// Inverts the half-ideal cipher: recovers into `pk` the public key that
/// `icc` hides under `pw` and `sid`. Any 1184 bytes invert to some key.
/// Fails, leaving `pk` unspecified, only when sampling the mask runs out of
/// blocks.
pub fn hic_inv(
    pk: &mut [u8; 1184],
    icc: &[u8; 1184],
    pw: &[u8; 32],
    sid: &[u8; 32],
) -> (r: Result<(), HicError>)
    ensures
        r is Ok <==> hic_inv_spec(icc@, pw@, sid@) is Some,
        r is Ok ==> final(pk)@ == hic_inv_spec(icc@, pw@, sid@)->0,
        r is Err ==> r == Err::<(), HicError>(HicError::Other) && final(pk)@ == old(pk)@,
{
    let ghost masked = icc@.subrange(0, 1152);
    // H(pw || sid || t') keys the cipher on the seed
    let mut hash_in_rl: [u8; 1216] = [0u8; 1216];
    copy_bytes(&mut hash_in_rl, 0, pw, 0, KYBER_SYMBYTES);
    copy_bytes(&mut hash_in_rl, KYBER_SYMBYTES, sid, 0, KYBER_SYMBYTES);
    copy_bytes(&mut hash_in_rl, 2 * KYBER_SYMBYTES, icc, 0, KYBER_POLYVECBYTES);
    assert(hash_in_rl@.subrange(0, 1216) =~= pw@ + sid@ + masked);
    let mut key: [u8; 32] = [0u8; 32];
    hash_h(&mut key, &hash_in_rl, 2 * KYBER_SYMBYTES + KYBER_POLYVECBYTES);
    // decipher the seed
    let mut in_rho: [u8; 32] = [0u8; 32];
    copy_bytes(&mut in_rho, 0, icc, KYBER_PUBLICKEYBYTES - KYBER_SYMBYTES, KYBER_SYMBYTES);
    assert(in_rho@ =~= icc@.subrange(1152, 1184));
    ic256_dec(&mut in_rho, &key);
    let ghost rho = in_rho@;
    // H(pw || sid || rho) is the seed of the mask
    let mut hash_in_lr: [u8; 96] = [0u8; 96];
    copy_bytes(&mut hash_in_lr, 0, pw, 0, KYBER_SYMBYTES);
    copy_bytes(&mut hash_in_lr, KYBER_SYMBYTES, sid, 0, KYBER_SYMBYTES);
    copy_bytes(&mut hash_in_lr, 2 * KYBER_SYMBYTES, &in_rho, 0, KYBER_SYMBYTES);
    assert(hash_in_lr@.subrange(0, 96) =~= pw@ + sid@ + rho);
    let mut mask_seed_t: [u8; 32] = [0u8; 32];
    hash_h(&mut mask_seed_t, &hash_in_lr, 3 * KYBER_SYMBYTES);
    let mut in_t = Polyvec::new();
    polyvec_frombytes(&mut in_t, icc);
    let mut mask_t = Polyvec::new();
    match gen_vector(&mut mask_t, &mask_seed_t) {
        Ok(()) => {},
        Err(e) => {
            return Err(e);
        },
    }
    let ghost mask = mask_t@;
    proof {
        lemma_gen_vector_range(mask_seed_t@);
        lemma_vec_unpacked_range(icc@);
    }
    polyvec_sub(&mut mask_t, &in_t);
    assert(mask_t@ =~~= sub_vec(in_t@, mask));
    polyvec_reduce(&mut mask_t);
    proof {
        assert forall|i: int| 0 <= i < 3 implies coeffs_bounded(#[trigger] mask_t@[i]) by {
            assert forall|j: int| 0 <= j < 256 implies -3329 < #[trigger] mask_t@[i][j] < 3329 by {
                lemma_centred_congruent(sub_vec(in_t@, mask)[i][j] as int);
            }
        }
    }
    polyvec_tobytes(pk, &mask_t);
    copy_bytes(pk, KYBER_POLYVECBYTES, &in_rho, 0, KYBER_SYMBYTES);
    assert(pk@ =~= polyvec_bytes(mask_t@) + rho);
    Ok(())
}

} // verus!
