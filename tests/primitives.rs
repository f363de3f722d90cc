use kyber_pake::chic::{confirmation_tag, init_end_finish, resp_finish, transcript_hash};
use kyber_pake::params::{
    KYBER_CIPHERTEXTBYTES, KYBER_INDCPA_PUBLICKEYBYTES, KYBER_POLYBYTES, KYBER_POLYVECBYTES,
    KYBER_PUBLICKEYBYTES, KYBER_SECRETKEYBYTES, KYBER_SYMBYTES, MSG1_LEN, MSG2_LEN,
};
use kyber_pake::verify::{cmov, verify};
use kyber_pake::{HicError, KyberError, PakeError};
use sha3::Digest;

#[test]
fn parameters_match_kyber768() {
    assert_eq!(KYBER_PUBLICKEYBYTES, pqc_kyber::KYBER_PUBLICKEYBYTES);
    assert_eq!(KYBER_SECRETKEYBYTES, pqc_kyber::KYBER_SECRETKEYBYTES);
    assert_eq!(KYBER_CIPHERTEXTBYTES, pqc_kyber::KYBER_CIPHERTEXTBYTES);
    assert_eq!(KYBER_SYMBYTES, pqc_kyber::KYBER_SYMBYTES);
    assert_eq!(KYBER_POLYVECBYTES, 3 * KYBER_POLYBYTES);
    assert_eq!(KYBER_INDCPA_PUBLICKEYBYTES, KYBER_POLYVECBYTES + KYBER_SYMBYTES);
    assert_eq!(MSG1_LEN, KYBER_PUBLICKEYBYTES);
    assert_eq!(MSG2_LEN, KYBER_SYMBYTES + KYBER_CIPHERTEXTBYTES);
}

#[test]
fn verify_compares_prefix() {
    assert_eq!(verify(&[1, 2, 3], &[1, 2, 3], 3), 0);
    assert_eq!(verify(&[1, 2, 3], &[1, 2, 4], 3), 1);
    assert_eq!(verify(&[1, 2, 3], &[1, 2, 4], 2), 0);
    assert_eq!(verify(&[0x80], &[0x00], 1), 1);
    assert_eq!(verify(&[], &[], 0), 0);
}

#[test]
fn cmov_copies_only_when_set() {
    let mut r = [1u8, 2, 3, 4];
    cmov(&mut r, &[9, 9, 9], 3, 0);
    assert_eq!(r, [1, 2, 3, 4]);
    cmov(&mut r, &[9, 8, 7], 3, 1);
    assert_eq!(r, [9, 8, 7, 4]);
}

#[test]
fn confirmation_tag_is_hash_of_key_and_sid() {
    let key = [1u8; 32];
    let sid = [2u8; 32];
    let mut input = key.to_vec();
    input.extend_from_slice(&sid);
    assert_eq!(confirmation_tag(&key, &sid)[..], sha3::Sha3_256::digest(&input)[..]);
}

#[test]
fn transcript_hash_layout() {
    let ss = [1u8; 32];
    let sid = [2u8; 32];
    let pk = [3u8; KYBER_PUBLICKEYBYTES];
    let msg1 = [4u8; MSG1_LEN];
    let ct = [5u8; KYBER_CIPHERTEXTBYTES];
    let mut input = Vec::new();
    input.extend_from_slice(&ss);
    input.extend_from_slice(&sid);
    input.extend_from_slice(&pk);
    input.extend_from_slice(&msg1);
    input.extend_from_slice(&ct);
    input.push(0);
    assert_eq!(input.len(), 3521);
    assert_eq!(transcript_hash(&ss, &sid, &pk, &msg1, &ct)[..], sha3::Sha3_512::digest(&input)[..]);
}

#[test]
fn finishing_steps_agree_on_same_secret() {
    let ss = [7u8; 32];
    let sid = [8u8; 32];
    let pk = [9u8; KYBER_PUBLICKEYBYTES];
    let msg1 = [10u8; MSG1_LEN];
    let ct = [11u8; KYBER_CIPHERTEXTBYTES];
    let mut key_r = [0u8; 32];
    let mut msg2 = [0u8; MSG2_LEN];
    let mut tag_r = [0u8; 32];
    resp_finish(&mut key_r, &mut msg2, &mut tag_r, &ss, &ct, &pk, &msg1, &sid);
    assert_eq!(msg2[32..], ct[..]);
    let mut key_i = [0u8; 32];
    let mut tag_i = [0u8; 32];
    assert_eq!(init_end_finish(&mut key_i, &mut tag_i, &msg2, &msg1, &pk, &sid, &ss), 0);
    assert_eq!(key_i, key_r);
    assert_eq!(tag_i, tag_r);
    // a different secret fails and leaves the key buffer alone
    let mut key_x = [1u8; 32];
    assert_eq!(init_end_finish(&mut key_x, &mut tag_i, &msg2, &msg1, &pk, &sid, &[0u8; 32]), 1);
    assert_eq!(key_x, [1u8; 32]);
    assert_eq!(tag_i, confirmation_tag(&[1u8; 32], &sid));
    // a tampered tag fails
    let mut bad = msg2;
    bad[0] ^= 1;
    let mut key_y = [0u8; 32];
    assert_eq!(init_end_finish(&mut key_y, &mut tag_i, &bad, &msg1, &pk, &sid, &ss), 1);
    assert_eq!(key_y, [0u8; 32]);
}

#[test]
fn error_messages() {
    assert_eq!(KyberError::InvalidInput.message(), "Function input is of incorrect length");
    assert_eq!(
        KyberError::Decapsulation.message(),
        "Decapsulation Failure, unable to obtain shared secret from ciphertext"
    );
    assert_eq!(KyberError::RandomBytesGeneration.message(), "Random bytes generation function failed");
    assert_eq!(HicError::Other.message(), "An error occurred in a HIC function");
    assert_eq!(HicError::InvalidInput.message(), "Function input is of incorrect length");
    assert_eq!(PakeError::KemError.message(), "An error ocurred in a KEM function!");
    assert_eq!(
        PakeError::HicError(HicError::Other).message(),
        "An error ocurred in a HIC function! Error: Other"
    );
    assert_eq!(PakeError::Other.message(), "An error occurred in a PAKE function");
    assert_eq!(PakeError::InvalidInput.message(), "Function input is of incorrect length");
}
