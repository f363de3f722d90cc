use kyber_pake::symmetric::{hash_g, hash_h, kdf, prf, xof_absorb, xof_squeezeblocks, KeccakState};
use sha3::digest::{ExtendableOutput, Update};
use sha3::Digest;

#[test]
fn hash_h_is_sha3_256() {
    let mut out = [0u8; 32];
    hash_h(&mut out, b"abc", 3);
    assert_eq!(out[..], sha3::Sha3_256::digest(b"abc")[..]);
    // FIPS 202 example value
    assert_eq!(out[0], 0x3a);
    assert_eq!(out[31], 0x32);
    hash_h(&mut out, b"abcdef", 0);
    assert_eq!(out[..], sha3::Sha3_256::digest(b"")[..]);
}

#[test]
fn hash_g_is_sha3_512() {
    let mut out = [9u8; 80];
    hash_g(&mut out, b"abc", 3);
    assert_eq!(out[..64], sha3::Sha3_512::digest(b"abc")[..]);
    assert_eq!(out[64..], [9u8; 16]);
}

#[test]
fn xof_squeezes_a_continuing_stream() {
    let seed = [5u8; 32];
    let mut st = KeccakState::new();
    xof_absorb(&mut st, &seed, 2, 0);
    let mut a = [0u8; 3 * 168];
    xof_squeezeblocks(&mut a, 3, &mut st);
    let mut b = [0u8; 168];
    xof_squeezeblocks(&mut b, 1, &mut st);
    let mut input = seed.to_vec();
    input.push(2);
    input.push(0);
    let mut expected = [0u8; 4 * 168];
    sha3::Shake128::default().chain(&input).finalize_xof_into(&mut expected);
    assert_eq!(a[..], expected[..504]);
    assert_eq!(b[..], expected[504..]);
    assert_ne!(a[..168], b[..]);
}

#[test]
fn keccak_state_reset() {
    let mut st = KeccakState::new();
    xof_absorb(&mut st, &[1u8; 32], 0, 0);
    let mut a = [0u8; 168];
    xof_squeezeblocks(&mut a, 1, &mut st);
    st.reset();
    assert_eq!(st.pos, 0);
    assert!(st.absorbed.is_empty());
}

#[test]
fn prf_is_shake256_of_key_and_nonce() {
    let key = [3u8; 32];
    let mut out = [0u8; 100];
    prf(&mut out, 64, &key, 7);
    let mut input = key.to_vec();
    input.push(7);
    let mut expected = [0u8; 64];
    sha3::Shake256::default().chain(&input).finalize_xof_into(&mut expected);
    assert_eq!(out[..64], expected[..]);
    assert_eq!(out[64..], [0u8; 36]);
}

#[test]
fn kdf_is_shake256_to_32_bytes() {
    let mut out = [0u8; 32];
    kdf(&mut out, b"shared secret material", 6);
    let mut expected = [0u8; 32];
    sha3::Shake256::default().chain(b"shared").finalize_xof_into(&mut expected);
    assert_eq!(out, expected);
}
