use kyber_pake::hic::{hic_eval, hic_inv};
use kyber_pake::ic::{ic256_dec, ic256_enc};
use kyber_pake::params::{KYBER_PUBLICKEYBYTES, KYBER_SECRETKEYBYTES, KYBER_SSBYTES};
use kyber_pake::polyvec::Polyvec;
use kyber_pake::sampler::gen_vector;
use rand::RngCore;

#[test]
fn test_hic() {
    let mut sid = [0u8; KYBER_SSBYTES];
    let mut pw = [0u8; KYBER_SSBYTES];
    let mut sk_a = [0u8; KYBER_SECRETKEYBYTES];
    let mut pk_a = [0u8; KYBER_PUBLICKEYBYTES];
    let mut pk_b = [0u8; KYBER_PUBLICKEYBYTES];
    let mut icc = [0u8; KYBER_PUBLICKEYBYTES];

    let mut rng = rand::thread_rng();

    rng.fill_bytes(&mut sid);
    rng.fill_bytes(&mut pw);

    let keypair = pqc_kyber::keypair(&mut rng).unwrap();
    pk_a.copy_from_slice(&keypair.public);
    sk_a.copy_from_slice(&keypair.secret);

    assert_eq!(hic_eval(&mut icc, &pk_a, &pw, &sid), Ok(()));
    assert_eq!(hic_inv(&mut pk_b, &icc, &pw, &sid), Ok(()));
    assert_eq!(pk_a, pk_b);
}

#[test]
fn hic_hides_the_key() {
    let mut rng = rand::thread_rng();
    let keypair = pqc_kyber::keypair(&mut rng).unwrap();
    let pw = [0u8; 32];
    let sid = [1u8; 32];
    let mut icc = [0u8; KYBER_PUBLICKEYBYTES];
    hic_eval(&mut icc, &keypair.public, &pw, &sid).unwrap();
    assert_ne!(icc, keypair.public);
    assert_ne!(icc[1152..], keypair.public[1152..]);
}

#[test]
fn hic_inverse_under_other_sid_differs() {
    let mut rng = rand::thread_rng();
    let keypair = pqc_kyber::keypair(&mut rng).unwrap();
    let pw = [0u8; 32];
    let sid = [2u8; 32];
    let mut icc = [0u8; KYBER_PUBLICKEYBYTES];
    hic_eval(&mut icc, &keypair.public, &pw, &sid).unwrap();
    let mut other = [0u8; KYBER_PUBLICKEYBYTES];
    hic_inv(&mut other, &icc, &pw, &[3u8; 32]).unwrap();
    assert_ne!(other, keypair.public);
    let mut wrong_pw = [0u8; KYBER_PUBLICKEYBYTES];
    let mut pw1 = [0u8; 32];
    pw1[0] = 1;
    hic_inv(&mut wrong_pw, &icc, &pw1, &sid).unwrap();
    assert_ne!(wrong_pw, keypair.public);
}

#[test]
fn ic_round_trip() {
    let key: [u8; 32] = core::array::from_fn(|i| (i * 3 + 1) as u8);
    for seed in 0..20u8 {
        let block: [u8; 32] = core::array::from_fn(|i| (i as u8).wrapping_mul(seed).wrapping_add(seed));
        let mut b = block;
        ic256_enc(&mut b, &key);
        assert_ne!(b, block);
        ic256_dec(&mut b, &key);
        assert_eq!(b, block);
    }
}

#[test]
fn ic_depends_on_key() {
    let block = [0u8; 32];
    let mut a = block;
    let mut b = block;
    ic256_enc(&mut a, &[0u8; 32]);
    ic256_enc(&mut b, &[1u8; 32]);
    assert_ne!(a, b);
}

#[test]
fn gen_vector_is_deterministic_and_uniform_range() {
    let seed = [9u8; 32];
    let mut a = Polyvec::new();
    let mut b = Polyvec::new();
    assert!(gen_vector(&mut a, &seed).is_ok());
    assert!(gen_vector(&mut b, &seed).is_ok());
    for i in 0..3 {
        assert_eq!(a.vec[i].coeffs, b.vec[i].coeffs);
        assert!(a.vec[i].coeffs.iter().all(|&c| (0..3329).contains(&c)));
    }
    assert_ne!(a.vec[0].coeffs, a.vec[1].coeffs);
    let mut c = Polyvec::new();
    assert!(gen_vector(&mut c, &[8u8; 32]).is_ok());
    assert_ne!(a.vec[0].coeffs, c.vec[0].coeffs);
}

fn hex(bytes: &[u8]) -> String {
    bytes.iter().map(|b| format!("{:02x}", b)).collect()
}

#[test]
fn ic_known_answers() {
    let mut block: [u8; 32] = core::array::from_fn(|i| i as u8);
    let key: [u8; 32] = core::array::from_fn(|i| i as u8);
    ic256_enc(&mut block, &key);
    assert_eq!(hex(&block), "623d2bd4ca3796dc3d02ecf2f37fb637fd3da58509cebb67ab9265b04db51e7d");
    let mut zero = [0u8; 32];
    ic256_enc(&mut zero, &[0u8; 32]);
    assert_eq!(hex(&zero), "c6227e7740b7e53b5cb77865278eab0726f62366d9aabad908936123a1fc8af3");
    ic256_dec(&mut zero, &[0u8; 32]);
    assert_eq!(zero, [0u8; 32]);
}
