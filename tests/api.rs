use kyber_pake::params::{KYBER_PUBLICKEYBYTES, KYBER_SECRETKEYBYTES, MSG1_LEN};
use kyber_pake::{
    pake_init_end, pake_init_end_ref, pake_init_start, pake_init_start_ref, pake_resp,
    pake_resp_ref, DefaultKyber,
};

#[test]
fn happy_path_with_default_kyber() {
    let mut kem = DefaultKyber::from_seed([0u8; 32]);
    let pw = [0u8; 32];
    let (enc_pk, pk, sk) = pake_init_start_ref(&pw, &mut kem).unwrap();
    let mut sid = [0u8; 32];
    sid.copy_from_slice(&enc_pk[..32]);
    let mut msg1 = [0u8; MSG1_LEN];
    msg1.copy_from_slice(&enc_pk[32..]);
    let (msg2, key_b, tag_b) = pake_resp_ref(&sid, &msg1, &pw, &mut kem).unwrap();
    let (key_a, tag_a, status) = pake_init_end_ref(&msg2, &sid, &msg1, &pk, &sk).unwrap();
    assert_eq!(status, 0);
    assert_eq!(key_a, key_b);
    assert_eq!(tag_a, tag_b);
    assert_ne!(key_a, [0u8; 32]);
}

#[test]
fn generic_api_round_trip() {
    let mut kem = DefaultKyber::from_seed([11u8; 32]);
    let pw = [42u8; 32];
    let sid = kem.random_sid();
    let (enc_pk, pk, sk) = pake_init_start(&pw, &sid, &mut kem).unwrap();
    assert_eq!(enc_pk[..32], sid[..]);
    let mut msg1 = [0u8; KYBER_PUBLICKEYBYTES];
    msg1.copy_from_slice(&enc_pk[32..]);
    let (msg2, key_b, tag_b) = pake_resp(&sid, &msg1, &pw, &mut kem).unwrap();
    let (key_a, tag_a, status) = pake_init_end(&msg2, &sid, &msg1, &pk, &sk, &mut kem).unwrap();
    assert_eq!(status, 0);
    assert_eq!(key_a, key_b);
    assert_eq!(tag_a, tag_b);
    let _ = KYBER_SECRETKEYBYTES;
}

#[test]
fn wrong_password_leaves_zero_key() {
    let mut kem = DefaultKyber::from_seed([0u8; 32]);
    let pw_a = [0u8; 32];
    let mut pw_b = [0u8; 32];
    pw_b[0] = 1;
    let (enc_pk, pk, sk) = pake_init_start_ref(&pw_a, &mut kem).unwrap();
    let mut sid = [0u8; 32];
    sid.copy_from_slice(&enc_pk[..32]);
    let mut msg1 = [0u8; MSG1_LEN];
    msg1.copy_from_slice(&enc_pk[32..]);
    let (msg2, key_b, tag_b) = pake_resp_ref(&sid, &msg1, &pw_b, &mut kem).unwrap();
    let (key_a, tag_a, status) = pake_init_end_ref(&msg2, &sid, &msg1, &pk, &sk).unwrap();
    assert_ne!(status, 0);
    assert_eq!(key_a, [0u8; 32]);
    assert_ne!(key_a, key_b);
    assert_ne!(tag_a, tag_b);
}

#[test]
fn same_seed_same_first_message() {
    let pw = [0u8; 32];
    let mut kem1 = DefaultKyber::from_seed([0u8; 32]);
    let mut kem2 = DefaultKyber::from_seed([0u8; 32]);
    let a = pake_init_start_ref(&pw, &mut kem1).unwrap();
    let b = pake_init_start_ref(&pw, &mut kem2).unwrap();
    assert_eq!(a.0, b.0);
    assert_eq!(a.1, b.1);
}
