use kyber_pake::chic::{init_end, init_start, resp};
use kyber_pake::hic::hic_inv;
use kyber_pake::kem::{DefaultKyber, Kem};
use kyber_pake::params::{
    KYBER_CIPHERTEXTBYTES, KYBER_PUBLICKEYBYTES, KYBER_SECRETKEYBYTES, KYBER_SSBYTES,
    KYBER_SYMBYTES, MSG1_LEN, MSG2_LEN,
};
use kyber_pake::KyberError;
use rand::RngCore;
use rand_chacha::ChaCha20Rng;
use rand_core::SeedableRng;

/// A KEM that calls pqc_kyber directly with its own generator.
struct InjectedKem<R> {
    rng: R,
}

fn map_err(e: pqc_kyber::KyberError) -> KyberError {
    match e {
        pqc_kyber::KyberError::InvalidInput => KyberError::InvalidInput,
        pqc_kyber::KyberError::Decapsulation => KyberError::Decapsulation,
        pqc_kyber::KyberError::RandomBytesGeneration => KyberError::RandomBytesGeneration,
    }
}

impl<R: rand_core::RngCore + rand_core::CryptoRng> Kem for InjectedKem<R> {
    fn keypair(&mut self) -> Result<([u8; KYBER_PUBLICKEYBYTES], [u8; KYBER_SECRETKEYBYTES]), KyberError> {
        let keypair = pqc_kyber::keypair(&mut self.rng).map_err(map_err)?;
        Ok((keypair.public, keypair.secret))
    }

    fn encapsulate(
        &mut self,
        pk: &[u8; KYBER_PUBLICKEYBYTES],
    ) -> Result<([u8; KYBER_CIPHERTEXTBYTES], [u8; KYBER_SSBYTES]), KyberError> {
        pqc_kyber::encapsulate(pk, &mut self.rng).map_err(map_err)
    }

    fn decapsulate(
        &mut self,
        ct: &[u8; KYBER_CIPHERTEXTBYTES],
        sk: &[u8; KYBER_SECRETKEYBYTES],
    ) -> Result<[u8; KYBER_SSBYTES], KyberError> {
        pqc_kyber::decapsulate(ct, sk).map_err(map_err)
    }
}

/// A KEM whose operations always fail.
struct BrokenKem;

impl Kem for BrokenKem {
    fn keypair(&mut self) -> Result<([u8; KYBER_PUBLICKEYBYTES], [u8; KYBER_SECRETKEYBYTES]), KyberError> {
        Err(KyberError::RandomBytesGeneration)
    }

    fn encapsulate(
        &mut self,
        _pk: &[u8; KYBER_PUBLICKEYBYTES],
    ) -> Result<([u8; KYBER_CIPHERTEXTBYTES], [u8; KYBER_SSBYTES]), KyberError> {
        Err(KyberError::RandomBytesGeneration)
    }

    fn decapsulate(
        &mut self,
        _ct: &[u8; KYBER_CIPHERTEXTBYTES],
        _sk: &[u8; KYBER_SECRETKEYBYTES],
    ) -> Result<[u8; KYBER_SSBYTES], KyberError> {
        Err(KyberError::Decapsulation)
    }
}

#[test]
fn test_chic_kyber_ref() {
    let mut sid = [0u8; KYBER_SSBYTES];
    let mut pw = [0u8; KYBER_SSBYTES];
    let mut sk = [0u8; KYBER_SECRETKEYBYTES];
    let mut pk = [0u8; KYBER_PUBLICKEYBYTES];
    let mut key_a = [0u8; KYBER_SSBYTES];
    let mut key_b = [0u8; KYBER_SSBYTES];
    let mut msg1 = [0u8; MSG1_LEN];
    let mut msg2 = [0u8; MSG2_LEN];
    let mut init_tag = [0u8; KYBER_SYMBYTES];
    let mut init_tag_2 = [0u8; KYBER_SYMBYTES];

    let mut rng = rand::thread_rng();

    rng.fill_bytes(&mut pw);
    rng.fill_bytes(&mut sid);

    let mut kem = InjectedKem { rng };

    // msg1 is the encrypted public key Alice sends to Bob
    assert_eq!(init_start(&mut msg1, &mut pk, &mut sk, &pw, &sid, &mut kem), Ok(()));
    // key_a is the shared secret Bob derived, and msg2 is the ciphertext containing that secret
    assert_eq!(resp(&mut key_a, &mut msg2, &mut init_tag, &msg1, &pw, &sid, &mut kem), Ok(()));
    // last step receives msg2 and outputs key_b, the shared secret = key_a
    assert_eq!(init_end(&mut key_b, &mut init_tag_2, &msg2, &msg1, &pk, &sk, &sid, &mut kem), Ok(0));

    assert_eq!(key_a, key_b);

    // key confirmation from initiator to responder
    assert_eq!(init_tag, init_tag_2);
}

#[test]
fn test_chic_default_kyber() {
    let mut sid = [0u8; KYBER_SSBYTES];
    let mut pw = [0u8; KYBER_SSBYTES];
    let mut sk = [0u8; KYBER_SECRETKEYBYTES];
    let mut pk = [0u8; KYBER_PUBLICKEYBYTES];
    let mut init_tag = [0u8; KYBER_PUBLICKEYBYTES];
    let mut key_a = [0u8; KYBER_SSBYTES];
    let mut key_b = [0u8; KYBER_SSBYTES];
    let mut msg1 = [0u8; MSG1_LEN];
    let mut msg2 = [0u8; MSG2_LEN];
    let mut tag_a = [0u8; KYBER_SYMBYTES];
    let mut tag_b = [0u8; KYBER_SYMBYTES];

    let mut rng = rand::thread_rng();

    rng.fill_bytes(&mut pw);
    rng.fill_bytes(&mut sid);
    rng.fill_bytes(&mut init_tag);

    let mut seed = [0u8; 32];
    rng.fill_bytes(&mut seed);
    let mut kem = DefaultKyber::from_seed(seed);

    // msg1 is the encrypted public key Alice sends to Bob
    assert_eq!(init_start(&mut msg1, &mut pk, &mut sk, &pw, &sid, &mut kem), Ok(()));
    // key_a is the shared secret Bob derived, and msg2 is the ciphertext containing that secret
    assert_eq!(resp(&mut key_a, &mut msg2, &mut tag_a, &msg1, &pw, &sid, &mut kem), Ok(()));
    // last step receives msg2 and outputs key_b, the shared secret = key_a
    assert_eq!(init_end(&mut key_b, &mut tag_b, &msg2, &msg1, &pk, &sk, &sid, &mut kem), Ok(0));

    assert_eq!(key_a, key_b);
}

#[test]
fn wrong_password_fails_and_keeps_key_buffer() {
    let mut kem = DefaultKyber::from_seed([0u8; 32]);
    let sid = kem.random_sid();
    let pw_i = [0u8; 32];
    let mut pw_r = [0u8; 32];
    pw_r[0] = 1;
    let mut msg1 = [0u8; MSG1_LEN];
    let mut pk = [0u8; KYBER_PUBLICKEYBYTES];
    let mut sk = [0u8; KYBER_SECRETKEYBYTES];
    assert_eq!(init_start(&mut msg1, &mut pk, &mut sk, &pw_i, &sid, &mut kem), Ok(()));
    let mut key_r = [0u8; 32];
    let mut msg2 = [0u8; MSG2_LEN];
    let mut tag_r = [0u8; 32];
    assert_eq!(resp(&mut key_r, &mut msg2, &mut tag_r, &msg1, &pw_r, &sid, &mut kem), Ok(()));
    let mut key_i = [0x5Au8; 32];
    let mut tag_i = [0u8; 32];
    let status = init_end(&mut key_i, &mut tag_i, &msg2, &msg1, &pk, &sk, &sid, &mut kem).unwrap();
    assert_ne!(status, 0);
    assert_eq!(key_i, [0x5Au8; 32]);
    assert_ne!(tag_i, tag_r);
    assert_ne!(key_i, key_r);
}

#[test]
fn replayed_msg1_with_fresh_sid_fails_confirmation() {
    let mut kem = DefaultKyber::from_seed([0u8; 32]);
    let sid = kem.random_sid();
    let fresh_sid = kem.random_sid();
    let pw = [0u8; 32];
    let mut msg1 = [0u8; MSG1_LEN];
    let mut pk = [0u8; KYBER_PUBLICKEYBYTES];
    let mut sk = [0u8; KYBER_SECRETKEYBYTES];
    assert_eq!(init_start(&mut msg1, &mut pk, &mut sk, &pw, &sid, &mut kem), Ok(()));
    let mut pk_fresh = [0u8; KYBER_PUBLICKEYBYTES];
    assert_eq!(hic_inv(&mut pk_fresh, &msg1, &pw, &fresh_sid), Ok(()));
    assert_ne!(pk_fresh, pk);
    let mut key_r = [0u8; 32];
    let mut msg2 = [0u8; MSG2_LEN];
    let mut tag_r = [0u8; 32];
    assert_eq!(resp(&mut key_r, &mut msg2, &mut tag_r, &msg1, &pw, &fresh_sid, &mut kem), Ok(()));
    let mut key_i = [0u8; 32];
    let mut tag_i = [0u8; 32];
    let status = init_end(&mut key_i, &mut tag_i, &msg2, &msg1, &pk, &sk, &sid, &mut kem).unwrap();
    assert_ne!(status, 0);
    assert_eq!(key_i, [0u8; 32]);
    assert_ne!(key_i, key_r);
}

#[test]
fn session_id_binding() {
    let mut kem = DefaultKyber::from_seed([4u8; 32]);
    let pw = [0u8; 32];
    let sid_a = [1u8; 32];
    let sid_b = [2u8; 32];
    let mut msg1 = [0u8; MSG1_LEN];
    let mut pk = [0u8; KYBER_PUBLICKEYBYTES];
    let mut sk = [0u8; KYBER_SECRETKEYBYTES];
    assert_eq!(init_start(&mut msg1, &mut pk, &mut sk, &pw, &sid_a, &mut kem), Ok(()));
    let mut key_r = [0u8; 32];
    let mut msg2 = [0u8; MSG2_LEN];
    let mut tag_r = [0u8; 32];
    assert_eq!(resp(&mut key_r, &mut msg2, &mut tag_r, &msg1, &pw, &sid_b, &mut kem), Ok(()));
    let mut key_i = [0u8; 32];
    let mut tag_i = [0u8; 32];
    let status = init_end(&mut key_i, &mut tag_i, &msg2, &msg1, &pk, &sk, &sid_a, &mut kem).unwrap();
    assert_ne!(status, 0);
    assert_ne!(key_i, key_r);
    assert_ne!(tag_i, tag_r);
}

#[test]
fn injected_kem_matches_default() {
    let seed = [0u8; 32];
    let pw = [0u8; 32];
    let sid = [6u8; 32];
    let mut injected = InjectedKem { rng: ChaCha20Rng::from_seed(seed) };
    let mut default = DefaultKyber::from_seed(seed);
    let mut msg1_a = [0u8; MSG1_LEN];
    let mut msg1_b = [0u8; MSG1_LEN];
    let mut pk_a = [0u8; KYBER_PUBLICKEYBYTES];
    let mut pk_b = [0u8; KYBER_PUBLICKEYBYTES];
    let mut sk_a = [0u8; KYBER_SECRETKEYBYTES];
    let mut sk_b = [0u8; KYBER_SECRETKEYBYTES];
    assert_eq!(init_start(&mut msg1_a, &mut pk_a, &mut sk_a, &pw, &sid, &mut injected), Ok(()));
    assert_eq!(init_start(&mut msg1_b, &mut pk_b, &mut sk_b, &pw, &sid, &mut default), Ok(()));
    assert_eq!(msg1_a, msg1_b);
    assert_eq!(pk_a, pk_b);
}

#[test]
fn kem_failures_surface_as_kem_error() {
    let pw = [0u8; 32];
    let sid = [0u8; 32];
    let mut msg1 = [0u8; MSG1_LEN];
    let mut pk = [0u8; KYBER_PUBLICKEYBYTES];
    let mut sk = [0u8; KYBER_SECRETKEYBYTES];
    assert_eq!(
        init_start(&mut msg1, &mut pk, &mut sk, &pw, &sid, &mut BrokenKem),
        Err(kyber_pake::PakeError::KemError)
    );
    let mut key = [0u8; 32];
    let mut msg2 = [0u8; MSG2_LEN];
    let mut tag = [0u8; 32];
    assert_eq!(
        resp(&mut key, &mut msg2, &mut tag, &msg1, &pw, &sid, &mut BrokenKem),
        Err(kyber_pake::PakeError::KemError)
    );
    let mut key_i = [3u8; 32];
    assert_eq!(
        init_end(&mut key_i, &mut tag, &msg2, &msg1, &pk, &sk, &sid, &mut BrokenKem),
        Err(kyber_pake::PakeError::KemError)
    );
    assert_eq!(key_i, [3u8; 32]);
}
