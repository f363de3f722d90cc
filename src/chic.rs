//! The three-message CHIC key exchange: the initiator sends its public key
//! under the half-ideal cipher, the responder encapsulates under the key it
//! recovers and answers with a confirmation tag, and the initiator accepts
//! the session key only when the tag checks.
use vstd::prelude::*;
use crate::bytes::copy_bytes;
use crate::error::{HicError, PakeError};
use crate::hic::{hic_eval, hic_eval_spec, hic_inv, hic_inv_spec, lemma_hic_round_trip, pk_canonical};
use crate::kem::Kem;
use crate::params::{
    KYBER_CIPHERTEXTBYTES, KYBER_PUBLICKEYBYTES, KYBER_SECRETKEYBYTES, KYBER_SYMBYTES, MSG1_LEN,
    MSG2_LEN,
};
use crate::symmetric::{hash_g, hash_h, sha3_256_of, sha3_512_of};
use crate::verify::{cmov, verify};

verus! {

/// The transcript that both parties hash: `ss || sid || pk || msg1 || ct || 0`.
pub open spec fn transcript(
    ss: Seq<u8>,
    sid: Seq<u8>,
    pk: Seq<u8>,
    msg1: Seq<u8>,
    ct: Seq<u8>,
) -> Seq<u8> {
    ss + sid + pk + msg1 + ct + seq![0u8]
}

/// The session key: the first half of `G(transcript)`.
pub open spec fn session_key(
    ss: Seq<u8>,
    sid: Seq<u8>,
    pk: Seq<u8>,
    msg1: Seq<u8>,
    ct: Seq<u8>,
) -> Seq<u8> {
    Seq::new(32, |i: int| sha3_512_of(transcript(ss, sid, pk, msg1, ct))[i])
}

/// The responder-to-initiator confirmation tag: the second half of
/// `G(transcript)`.
pub open spec fn responder_tag(
    ss: Seq<u8>,
    sid: Seq<u8>,
    pk: Seq<u8>,
    msg1: Seq<u8>,
    ct: Seq<u8>,
) -> Seq<u8> {
    Seq::new(32, |i: int| sha3_512_of(transcript(ss, sid, pk, msg1, ct))[32 + i])
}

/// The initiator-to-responder confirmation tag: `H(key || sid)`.
pub open spec fn initiator_tag(key: Seq<u8>, sid: Seq<u8>) -> Seq<u8> {
    sha3_256_of(key + sid)
}

/// Whether `key`, `msg2` and `init_tag` are what the responder derives from
/// the shared secret `ss`: the session key, the message `tag || ct`, and the
/// tag it expects back.
pub open spec fn responder_outputs(
    ss: Seq<u8>,
    sid: Seq<u8>,
    pk: Seq<u8>,
    msg1: Seq<u8>,
    msg2: Seq<u8>,
    key: Seq<u8>,
    init_tag: Seq<u8>,
) -> bool {
    &&& key == session_key(ss, sid, pk, msg1, msg2.subrange(32, 1120))
    &&& msg2.subrange(0, 32) == responder_tag(ss, sid, pk, msg1, msg2.subrange(32, 1120))
    &&& init_tag == initiator_tag(key, sid)
}

/// The all-zero key buffer that the initiator starts from.
pub open spec fn zero_key() -> Seq<u8> {
    Seq::new(32, |i: int| 0u8)
}

/// Whether a second message carries the tag that the initiator expects.
pub open spec fn tag_matches(
    msg2: Seq<u8>,
    ss: Seq<u8>,
    sid: Seq<u8>,
    pk: Seq<u8>,
    msg1: Seq<u8>,
) -> bool {
    msg2.subrange(0, 32) == responder_tag(ss, sid, pk, msg1, msg2.subrange(32, 1120))
}

/// What the initiator ends with, from the key buffer it started with: the
/// status (0 on success), the key, and the tag it sends back.
pub open spec fn init_end_outcome(
    key0: Seq<u8>,
    msg2: Seq<u8>,
    msg1: Seq<u8>,
    pk: Seq<u8>,
    sid: Seq<u8>,
    ss: Seq<u8>,
) -> (u8, Seq<u8>, Seq<u8>) {
    let ok = tag_matches(msg2, ss, sid, pk, msg1);
    let key = if ok {
        session_key(ss, sid, pk, msg1, msg2.subrange(32, 1120))
    } else {
        key0
    };
    (if ok {
        0u8
    } else {
        1u8
    }, key, initiator_tag(key, sid))
}

/// `G(ss || sid || pk || msg1 || ct || 0)`: the session key followed by the
/// responder's confirmation tag.
pub fn transcript_hash(
    ss: &[u8; 32],
    sid: &[u8; 32],
    pk: &[u8; KYBER_PUBLICKEYBYTES],
    msg1: &[u8; MSG1_LEN],
    ct: &[u8],
) -> (r: [u8; 64])
    requires
        ct@.len() == KYBER_CIPHERTEXTBYTES,
    ensures
        r@ == sha3_512_of(transcript(ss@, sid@, pk@, msg1@, ct@)),
{
    let mut hashin: [u8; 3521] = [0u8; 3521];
    let total: usize = 2 * KYBER_SYMBYTES + 2 * KYBER_PUBLICKEYBYTES + KYBER_CIPHERTEXTBYTES + 1;
    assert(hashin@[3520] == 0u8);
    let s = &mut hashin;
    copy_bytes(s, 0, ss, 0, KYBER_SYMBYTES);
    copy_bytes(s, KYBER_SYMBYTES, sid, 0, KYBER_SYMBYTES);
    copy_bytes(s, 2 * KYBER_SYMBYTES, pk, 0, KYBER_PUBLICKEYBYTES);
    copy_bytes(s, 2 * KYBER_SYMBYTES + KYBER_PUBLICKEYBYTES, msg1, 0, KYBER_PUBLICKEYBYTES);
    copy_bytes(s, 2 * KYBER_SYMBYTES + 2 * KYBER_PUBLICKEYBYTES, ct, 0, KYBER_CIPHERTEXTBYTES);
    assert(hashin@.subrange(0, 3521) =~= transcript(ss@, sid@, pk@, msg1@, ct@));
    let mut keytag: [u8; 64] = [0u8; 64];
    hash_g(&mut keytag, &hashin, total);
    assert(keytag@ =~= keytag@.subrange(0, 64));
    keytag
}

/// `H(key || sid)`: the initiator-to-responder confirmation tag.
pub fn confirmation_tag(key: &[u8; 32], sid: &[u8; 32]) -> (r: [u8; 32])
    ensures
        r@ == initiator_tag(key@, sid@),
{
    let mut to_authenticate: [u8; 64] = [0u8; 64];
    copy_bytes(&mut to_authenticate, 0, key, 0, KYBER_SYMBYTES);
    copy_bytes(&mut to_authenticate, KYBER_SYMBYTES, sid, 0, KYBER_SYMBYTES);
    assert(to_authenticate@.subrange(0, 64) =~= key@ + sid@);
    let mut tag: [u8; 32] = [0u8; 32];
    hash_h(&mut tag, &to_authenticate, 2 * KYBER_SYMBYTES);
    tag
}

/// The responder's work once the KEM has produced `ct` and `ss` under the
/// recovered public key `pk`: the session key, the second message
/// `tag || ct`, and the tag it expects back from the initiator.
pub fn resp_finish(
    key: &mut [u8; 32],
    msg2: &mut [u8; MSG2_LEN],
    init_tag: &mut [u8; 32],
    ss: &[u8; 32],
    ct: &[u8; KYBER_CIPHERTEXTBYTES],
    pk: &[u8; KYBER_PUBLICKEYBYTES],
    msg1: &[u8; MSG1_LEN],
    sid: &[u8; 32],
)
    ensures
        final(key)@ == session_key(ss@, sid@, pk@, msg1@, ct@),
        final(msg2)@ == responder_tag(ss@, sid@, pk@, msg1@, ct@) + ct@,
        final(init_tag)@ == initiator_tag(final(key)@, sid@),
{
    let keytag = transcript_hash(ss, sid, pk, msg1, ct);
    copy_bytes(key, 0, &keytag, 0, KYBER_SYMBYTES);
    assert(key@ =~= session_key(ss@, sid@, pk@, msg1@, ct@));
    copy_bytes(msg2, 0, &keytag, KYBER_SYMBYTES, KYBER_SYMBYTES);
    copy_bytes(msg2, KYBER_SYMBYTES, ct, 0, KYBER_CIPHERTEXTBYTES);
    assert(msg2@ =~= responder_tag(ss@, sid@, pk@, msg1@, ct@) + ct@);
    *init_tag = confirmation_tag(key, sid);
}

/// The initiator's work once the KEM has decapsulated `ss`: checks the tag
/// in `msg2` in constant time, copies the session key into `key` only when
/// it matches (otherwise `key` keeps its contents), and computes the tag to
/// send back from `key` either way. Returns 0 on success and 1 otherwise.
pub fn init_end_finish(
    key: &mut [u8; 32],
    init_tag: &mut [u8; 32],
    msg2: &[u8; MSG2_LEN],
    msg1: &[u8; MSG1_LEN],
    pk: &[u8; KYBER_PUBLICKEYBYTES],
    sid: &[u8; 32],
    ss: &[u8; 32],
) -> (status: u8)
    ensures
        (status, final(key)@, final(init_tag)@) == init_end_outcome(
            old(key)@,
            msg2@,
            msg1@,
            pk@,
            sid@,
            ss@,
        ),
{
    let mut ct: [u8; KYBER_CIPHERTEXTBYTES] = [0u8; KYBER_CIPHERTEXTBYTES];
    copy_bytes(&mut ct, 0, msg2, KYBER_SYMBYTES, KYBER_CIPHERTEXTBYTES);
    assert(ct@ =~= msg2@.subrange(32, 1120));
    let keytag = transcript_hash(ss, sid, pk, msg1, &ct);
    let mut tag: [u8; 32] = [0u8; 32];
    copy_bytes(&mut tag, 0, &keytag, KYBER_SYMBYTES, KYBER_SYMBYTES);
    assert(tag@ =~= responder_tag(ss@, sid@, pk@, msg1@, ct@));
    // check the tag
    let result = verify(&tag, msg2, KYBER_SYMBYTES);
    assert(tag@.subrange(0, 32) =~= tag@);
    // take the key only when it checked
    assert((result & 1) ^ 1 == if result == 0 { 1u8 } else { 0u8 }) by (bit_vector)
        requires
            result == 0 || result == 1,
    ;
    cmov(key, &keytag, KYBER_SYMBYTES, (result & 1) ^ 1);
    proof {
        if result == 0 {
            assert(key@ =~= key@.subrange(0, 32));
            assert(keytag@.subrange(0, 32) =~= session_key(ss@, sid@, pk@, msg1@, ct@));
        }
    }
    *init_tag = confirmation_tag(key, sid);
    result
}

/// First stage of the initiator: a key pair from the KEM, and `msg1`, the
/// public key under the half-ideal cipher keyed by `pw` and `sid`.
pub fn init_start<K: Kem>(
    msg1: &mut [u8; MSG1_LEN],
    pk: &mut [u8; KYBER_PUBLICKEYBYTES],
    sk: &mut [u8; KYBER_SECRETKEYBYTES],
    pw: &[u8; 32],
    sid: &[u8; 32],
    kem: &mut K,
) -> (r: Result<(), PakeError>)
    ensures
        r is Ok ==> hic_eval_spec(final(pk)@, pw@, sid@) is Some && final(msg1)@ == hic_eval_spec(
            final(pk)@,
            pw@,
            sid@,
        )->0,
        r is Err ==> r == Err::<(), PakeError>(PakeError::KemError) || (r == Err::<(), PakeError>(
            PakeError::HicError(HicError::Other),
        ) && hic_eval_spec(final(pk)@, pw@, sid@) is None),
        r is Err ==> final(msg1)@ == old(msg1)@,
        r == Err::<(), PakeError>(PakeError::KemError) ==> final(pk)@ == old(pk)@ && final(sk)@
            == old(sk)@,
{
    match kem.keypair() {
        Ok((kyber_pk, kyber_sk)) => {
            *pk = kyber_pk;
            *sk = kyber_sk;
        },
        Err(_) => {
            return Err(PakeError::KemError);
        },
    }
    match hic_eval(msg1, pk, pw, sid) {
        Ok(()) => Ok(()),
        Err(e) => Err(PakeError::HicError(e)),
    }
}

/// The responder: recovers the initiator's public key from `msg1`,
/// encapsulates under it with the KEM, and derives the session key, the
/// second message and the tag it expects back.
pub fn resp<K: Kem>(
    key: &mut [u8; 32],
    msg2: &mut [u8; MSG2_LEN],
    init_tag: &mut [u8; 32],
    msg1: &[u8; MSG1_LEN],
    pw: &[u8; 32],
    sid: &[u8; 32],
    kem: &mut K,
) -> (r: Result<(), PakeError>)
    ensures
        r is Ok ==> hic_inv_spec(msg1@, pw@, sid@) is Some && final(msg2)@.subrange(32, 1120).len()
            == 1088 && exists|ss: Seq<u8>|
            #[trigger] session_key(
                ss,
                sid@,
                hic_inv_spec(msg1@, pw@, sid@)->0,
                msg1@,
                final(msg2)@.subrange(32, 1120),
            ) == final(key)@ && final(msg2)@.subrange(0, 32) == responder_tag(
                ss,
                sid@,
                hic_inv_spec(msg1@, pw@, sid@)->0,
                msg1@,
                final(msg2)@.subrange(32, 1120),
            ) && final(init_tag)@ == initiator_tag(final(key)@, sid@),
        r is Err ==> r == Err::<(), PakeError>(PakeError::KemError) || (r == Err::<(), PakeError>(
            PakeError::HicError(HicError::Other),
        ) && hic_inv_spec(msg1@, pw@, sid@) is None),
        hic_inv_spec(msg1@, pw@, sid@) is None ==> r == Err::<(), PakeError>(
            PakeError::HicError(HicError::Other),
        ),
        r is Err ==> final(key)@ == old(key)@ && final(msg2)@ == old(msg2)@ && final(init_tag)@
            == old(init_tag)@,
{
    let mut pk: [u8; KYBER_PUBLICKEYBYTES] = [0u8; KYBER_PUBLICKEYBYTES];
    match hic_inv(&mut pk, msg1, pw, sid) {
        Ok(()) => {},
        Err(e) => {
            return Err(PakeError::HicError(e));
        },
    }
    match kem.encapsulate(&pk) {
        Ok((ct, ss)) => {
            resp_finish(key, msg2, init_tag, &ss, &ct, &pk, msg1, sid);
            assert(msg2@.subrange(32, 1120) =~= ct@);
            assert(msg2@.subrange(0, 32) =~= responder_tag(ss@, sid@, pk@, msg1@, ct@));
            Ok(())
        },
        Err(_) => Err(PakeError::KemError),
    }
}

/// Last stage of the initiator: decapsulates the ciphertext in `msg2` with
/// the KEM and finishes as `init_end_finish` does. Returns the status: 0
/// when the responder's tag checked and `key` holds the session key.
pub fn init_end<K: Kem>(
    key: &mut [u8; 32],
    init_tag: &mut [u8; 32],
    msg2: &[u8; MSG2_LEN],
    msg1: &[u8; MSG1_LEN],
    pk: &[u8; KYBER_PUBLICKEYBYTES],
    sk: &[u8; KYBER_SECRETKEYBYTES],
    sid: &[u8; 32],
    kem: &mut K,
) -> (r: Result<u8, PakeError>)
    ensures
        r is Ok ==> exists|ss: Seq<u8>|
            (r->Ok_0, final(key)@, final(init_tag)@) == #[trigger] init_end_outcome(
                old(key)@,
                msg2@,
                msg1@,
                pk@,
                sid@,
                ss,
            ),
        r is Err ==> r == Err::<u8, PakeError>(PakeError::KemError) && final(key)@ == old(key)@
            && final(init_tag)@ == old(init_tag)@,
{
    let mut ct: [u8; KYBER_CIPHERTEXTBYTES] = [0u8; KYBER_CIPHERTEXTBYTES];
    copy_bytes(&mut ct, 0, msg2, KYBER_SYMBYTES, KYBER_CIPHERTEXTBYTES);
    match kem.decapsulate(&ct, sk) {
        Ok(ss) => {
            let status = init_end_finish(key, init_tag, msg2, msg1, pk, sid, &ss);
            Ok(status)
        },
        Err(_) => Err(PakeError::KemError),
    }
}

/// An honest run succeeds: when the initiator's public key is well formed,
/// both parties use the same password and session id, and the KEM gives
/// both the same shared secret, the initiator's status is 0, both hold the
/// same key, and the initiator's tag equals the one the responder expects.
pub proof fn lemma_chic_correct(
    pk: Seq<u8>,
    pw: Seq<u8>,
    sid: Seq<u8>,
    ct: Seq<u8>,
    ss: Seq<u8>,
    key0: Seq<u8>,
)
    requires
        pk.len() == 1184,
        pw.len() == 32,
        sid.len() == 32,
        ct.len() == 1088,
        ss.len() == 32,
        pk_canonical(pk),
        hic_eval_spec(pk, pw, sid) is Some,
    ensures
        ({
            let msg1 = hic_eval_spec(pk, pw, sid)->0;
            let pk_resp = hic_inv_spec(msg1, pw, sid)->0;
            let key_resp = session_key(ss, sid, pk_resp, msg1, ct);
            let msg2 = responder_tag(ss, sid, pk_resp, msg1, ct) + ct;
            let tag_resp = initiator_tag(key_resp, sid);
            &&& hic_inv_spec(msg1, pw, sid) == Some(pk)
            &&& init_end_outcome(key0, msg2, msg1, pk, sid, ss) == (0u8, key_resp, tag_resp)
        }),
{
    lemma_hic_round_trip(pk, pw, sid);
    let msg1 = hic_eval_spec(pk, pw, sid)->0;
    let tag = responder_tag(ss, sid, pk, msg1, ct);
    let msg2 = tag + ct;
    assert(msg2.subrange(32, 1120) =~= ct);
    assert(msg2.subrange(0, 32) =~= tag);
}


/// Confirmation is symmetric: when the initiator accepts a second message
/// that the responder derived from the same shared secret, transcript and
/// session id, the initiator ends with the responder's key and with the tag
/// the responder expects back.
pub proof fn lemma_confirmation_symmetric(
    ss: Seq<u8>,
    sid: Seq<u8>,
    pk: Seq<u8>,
    msg1: Seq<u8>,
    msg2: Seq<u8>,
    key_resp: Seq<u8>,
    tag_resp: Seq<u8>,
    key0: Seq<u8>,
)
    requires
        responder_outputs(ss, sid, pk, msg1, msg2, key_resp, tag_resp),
        init_end_outcome(key0, msg2, msg1, pk, sid, ss).0 == 0,
    ensures
        init_end_outcome(key0, msg2, msg1, pk, sid, ss).1 == key_resp,
        init_end_outcome(key0, msg2, msg1, pk, sid, ss).2 == tag_resp,
{
}

} // verus!
