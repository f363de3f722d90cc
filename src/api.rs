//! The public face of the key exchange: whole messages in, whole messages
//! out. The initiator's first message travels as `sid || msg1`.
use vstd::prelude::*;
use crate::bytes::copy_bytes;
use crate::chic::{init_end, init_end_finish, init_end_outcome, init_start, resp};
use crate::chic::{initiator_tag, responder_outputs, responder_tag, session_key, zero_key};
use crate::error::{HicError, PakeError};
use crate::hic::{hic_eval_spec, hic_inv_spec};
use crate::kem::{kyber_decapsulate, kyber_decapsulation_of, DefaultKyber, Kem};
use crate::params::{
    KYBER_CIPHERTEXTBYTES, KYBER_PUBLICKEYBYTES, KYBER_SECRETKEYBYTES, KYBER_SSBYTES,
    KYBER_SYMBYTES, MSG2_LEN,
};

verus! {

/// Starts an exchange as initiator with session id `sid`, which must be
/// fresh: returns `sid || msg1` for the responder, and the key pair to keep.
pub fn pake_init_start<K: Kem>(pw: &[u8; 32], sid: &[u8; 32], kem: &mut K) -> (r: Result<
    ([u8; 1216], [u8; KYBER_PUBLICKEYBYTES], [u8; KYBER_SECRETKEYBYTES]),
    PakeError,
>)
    ensures
        r is Ok ==> {
            let (enc_pk, pk, sk) = r->Ok_0;
            &&& hic_eval_spec(pk@, pw@, sid@) is Some
            &&& enc_pk@ == sid@ + hic_eval_spec(pk@, pw@, sid@)->0
        },
        r is Err ==> r == Err::<([u8; 1216], [u8; 1184], [u8; 2400]), PakeError>(
            PakeError::KemError,
        ) || r == Err::<([u8; 1216], [u8; 1184], [u8; 2400]), PakeError>(
            PakeError::HicError(HicError::Other),
        ),
{
    let mut out: [u8; KYBER_PUBLICKEYBYTES] = [0u8; KYBER_PUBLICKEYBYTES];
    let mut pk: [u8; KYBER_PUBLICKEYBYTES] = [0u8; KYBER_PUBLICKEYBYTES];
    let mut sk: [u8; KYBER_SECRETKEYBYTES] = [0u8; KYBER_SECRETKEYBYTES];
    match init_start(&mut out, &mut pk, &mut sk, pw, sid, kem) {
        Ok(()) => {},
        Err(e) => {
            return Err(e);
        },
    }
    let mut enc_pk: [u8; 1216] = [0u8; 1216];
    copy_bytes(&mut enc_pk, 0, sid, 0, KYBER_SYMBYTES);
    copy_bytes(&mut enc_pk, KYBER_SYMBYTES, &out, 0, KYBER_PUBLICKEYBYTES);
    assert(enc_pk@ =~= sid@ + out@);
    Ok((enc_pk, pk, sk))
}

/// Answers an initiator as responder: returns the second message
/// `tag || ct`, the session key, and the tag the initiator should send back.
pub fn pake_resp<K: Kem>(
    sid: &[u8; 32],
    msg1: &[u8; KYBER_PUBLICKEYBYTES],
    pw: &[u8; 32],
    kem: &mut K,
) -> (r: Result<([u8; MSG2_LEN], [u8; 32], [u8; 32]), PakeError>)
    ensures
        r is Ok ==> hic_inv_spec(msg1@, pw@, sid@) is Some && exists|ss: Seq<u8>|
            #[trigger] responder_outputs(
                ss,
                sid@,
                hic_inv_spec(msg1@, pw@, sid@)->0,
                msg1@,
                (r->Ok_0).0@,
                (r->Ok_0).1@,
                (r->Ok_0).2@,
            ),
        r is Err ==> r == Err::<([u8; 1120], [u8; 32], [u8; 32]), PakeError>(PakeError::KemError)
            || r == Err::<([u8; 1120], [u8; 32], [u8; 32]), PakeError>(
            PakeError::HicError(HicError::Other),
        ),
        (r == Err::<([u8; 1120], [u8; 32], [u8; 32]), PakeError>(
            PakeError::HicError(HicError::Other),
        )) <==> hic_inv_spec(msg1@, pw@, sid@) is None,
{
    let mut msg2: [u8; MSG2_LEN] = [0u8; MSG2_LEN];
    let mut ss: [u8; KYBER_SYMBYTES] = [0u8; KYBER_SYMBYTES];
    let mut init_tag: [u8; KYBER_SYMBYTES] = [0u8; KYBER_SYMBYTES];
    match resp(&mut ss, &mut msg2, &mut init_tag, msg1, pw, sid, kem) {
        Ok(()) => {
            let ghost pk = hic_inv_spec(msg1@, pw@, sid@)->0;
            let ghost ss_w = choose|x: Seq<u8>|
                #[trigger] session_key(x, sid@, pk, msg1@, msg2@.subrange(32, 1120)) == ss@
                    && msg2@.subrange(0, 32) == responder_tag(
                    x,
                    sid@,
                    pk,
                    msg1@,
                    msg2@.subrange(32, 1120),
                ) && init_tag@ == initiator_tag(ss@, sid@);
            let r: Result<([u8; MSG2_LEN], [u8; 32], [u8; 32]), PakeError> = Ok(
                (msg2, ss, init_tag),
            );
            assert(responder_outputs(
                ss_w,
                sid@,
                pk,
                msg1@,
                (r->Ok_0).0@,
                (r->Ok_0).1@,
                (r->Ok_0).2@,
            ));
            r
        },
        Err(e) => Err(e),
    }
}

/// Finishes an exchange as initiator: returns the session key (all zero
/// when the responder's tag did not check), the tag to send back, and the
/// status, 0 on success.
pub fn pake_init_end<K: Kem>(
    msg2: &[u8; MSG2_LEN],
    sid: &[u8; 32],
    msg1: &[u8; KYBER_PUBLICKEYBYTES],
    pk: &[u8; KYBER_PUBLICKEYBYTES],
    sk: &[u8; KYBER_SECRETKEYBYTES],
    kem: &mut K,
) -> (r: Result<([u8; 32], [u8; 32], u8), PakeError>)
    ensures
        r is Ok ==> exists|ss: Seq<u8>|
            {
                let (key, tag, status) = r->Ok_0;
                (status, key@, tag@) == #[trigger] init_end_outcome(
                    zero_key(),
                    msg2@,
                    msg1@,
                    pk@,
                    sid@,
                    ss,
                )
            },
        r is Err ==> r == Err::<([u8; 32], [u8; 32], u8), PakeError>(PakeError::KemError),
{
    let mut ss: [u8; KYBER_SSBYTES] = [0u8; KYBER_SSBYTES];
    let mut init_tag: [u8; KYBER_SYMBYTES] = [0u8; KYBER_SYMBYTES];
    assert(ss@ =~= zero_key());
    match init_end(&mut ss, &mut init_tag, msg2, msg1, pk, sk, sid, kem) {
        Ok(status) => Ok((ss, init_tag, status)),
        Err(e) => Err(e),
    }
}

/// `pake_init_start` with Kyber-768, drawing the session id from the same
/// random stream as the key pair: returns `sid || msg1` and the key pair.
pub fn pake_init_start_ref(pw: &[u8; 32], kem: &mut DefaultKyber) -> (r: Result<
    ([u8; 1216], [u8; KYBER_PUBLICKEYBYTES], [u8; KYBER_SECRETKEYBYTES]),
    PakeError,
>)
    ensures
        r is Ok ==> {
            let (enc_pk, pk, sk) = r->Ok_0;
            &&& hic_eval_spec(pk@, pw@, enc_pk@.subrange(0, 32)) is Some
            &&& enc_pk@.subrange(32, 1216) == hic_eval_spec(pk@, pw@, enc_pk@.subrange(0, 32))->0
        },
        r is Err ==> r == Err::<([u8; 1216], [u8; 1184], [u8; 2400]), PakeError>(
            PakeError::KemError,
        ) || r == Err::<([u8; 1216], [u8; 1184], [u8; 2400]), PakeError>(
            PakeError::HicError(HicError::Other),
        ),
{
    let sid = kem.random_sid();
    let r = pake_init_start(pw, &sid, kem);
    match r {
        Ok((enc_pk, pk, sk)) => {
            assert(enc_pk@.subrange(0, 32) =~= sid@);
            assert(enc_pk@.subrange(32, 1216) =~= hic_eval_spec(pk@, pw@, sid@)->0);
        },
        Err(_) => {},
    }
    r
}

/// `pake_resp` with Kyber-768.
pub fn pake_resp_ref(
    sid: &[u8; 32],
    msg1: &[u8; KYBER_PUBLICKEYBYTES],
    pw: &[u8; 32],
    kem: &mut DefaultKyber,
) -> (r: Result<([u8; MSG2_LEN], [u8; 32], [u8; 32]), PakeError>)
    ensures
        r is Ok ==> hic_inv_spec(msg1@, pw@, sid@) is Some && exists|ss: Seq<u8>|
            #[trigger] responder_outputs(
                ss,
                sid@,
                hic_inv_spec(msg1@, pw@, sid@)->0,
                msg1@,
                (r->Ok_0).0@,
                (r->Ok_0).1@,
                (r->Ok_0).2@,
            ),
        r is Err ==> r == Err::<([u8; 1120], [u8; 32], [u8; 32]), PakeError>(PakeError::KemError)
            || r == Err::<([u8; 1120], [u8; 32], [u8; 32]), PakeError>(
            PakeError::HicError(HicError::Other),
        ),
        (r == Err::<([u8; 1120], [u8; 32], [u8; 32]), PakeError>(
            PakeError::HicError(HicError::Other),
        )) <==> hic_inv_spec(msg1@, pw@, sid@) is None,
{
    pake_resp(sid, msg1, pw, kem)
}

/// `pake_init_end` with Kyber-768 decapsulation: the key (all zero when
/// the responder's tag did not check), the tag to send back, and the
/// status, 0 on success.
pub fn pake_init_end_ref(
    msg2: &[u8; MSG2_LEN],
    sid: &[u8; 32],
    msg1: &[u8; KYBER_PUBLICKEYBYTES],
    pk: &[u8; KYBER_PUBLICKEYBYTES],
    sk: &[u8; KYBER_SECRETKEYBYTES],
) -> (r: Result<([u8; 32], [u8; 32], u8), PakeError>)
    ensures
        r is Ok,
        ({
            let (key, tag, status) = r->Ok_0;
            (status, key@, tag@) == init_end_outcome(
                zero_key(),
                msg2@,
                msg1@,
                pk@,
                sid@,
                kyber_decapsulation_of(msg2@.subrange(32, 1120), sk@),
            )
        }),
{
    let mut ct: [u8; KYBER_CIPHERTEXTBYTES] = [0u8; KYBER_CIPHERTEXTBYTES];
    copy_bytes(&mut ct, 0, msg2, KYBER_SYMBYTES, KYBER_CIPHERTEXTBYTES);
    assert(ct@ =~= msg2@.subrange(32, 1120));
    let mut ss: [u8; KYBER_SSBYTES] = [0u8; KYBER_SSBYTES];
    let mut init_tag: [u8; KYBER_SYMBYTES] = [0u8; KYBER_SYMBYTES];
    assert(ss@ =~= zero_key());
    match kyber_decapsulate(&ct, sk) {
        Ok(shared) => {
            let status = init_end_finish(&mut ss, &mut init_tag, msg2, msg1, pk, sid, &shared);
            Ok((ss, init_tag, status))
        },
        Err(_) => Err(PakeError::KemError),
    }
}

} // verus!
