use kyber_pake::sha256::{sha256, Sha256};
use kyber_pake::sha512::{sha512, Sha512};
use kyber_pake::symmetric::{hash_g_sha2, hash_h_sha2};

fn hex(bytes: &[u8]) -> String {
    let mut s = String::with_capacity(bytes.len() * 2);
    for b in bytes {
        s.push_str(&format!("{:02x}", b));
    }
    s
}

#[test]
fn sha256_test_vectors() {
    assert_eq!(
        hex(&sha256(b"")),
        "e3b0c44298fc1c149afbf4c8996fb924\
         27ae41e4649b934ca495991b7852b855"
    );

    assert_eq!(
        hex(&sha256(b"abc")),
        "ba7816bf8f01cfea414140de5dae2223\
         b00361a396177a9cb410ff61f20015ad"
    );

    assert_eq!(
        hex(&sha256(b"The quick brown fox jumps over the lazy dog")),
        "d7a8fbb307d7809469ca9abcb0082e4f\
         8d5651e46d3cdb762d02d0bf37c9e592"
    );
}

#[test]
fn sha512_test_vectors() {
    assert_eq!(
        hex(&sha512(b"")),
        "cf83e1357eefb8bdf1542850d66d8007d620e4050b5715dc\
         83f4a921d36ce9ce47d0d13c5d85f2b0ff8318d2877eec2f\
         63b931bd47417a81a538327af927da3e"
    );

    assert_eq!(
        hex(&sha512(b"abc")),
        "ddaf35a193617abacc417349ae20413112e6fa4e89a97ea2\
         0a9eeee64b55d39a2192992a274fc1a836ba3c23a3feebbd\
         454d4423643ce80e2a9ac94fa54ca49f"
    );

    assert_eq!(
        hex(&sha512(b"hello, this is patrick")),
        "606470c7243c69953f6ace64469d761df26230a126daa54ca\
         b261dc3d3e287945de061f4f31bfc692dbe97e4fa229ef4cd\
         49d0cd57d33f15bbd991f825833181"
    )
}

#[test]
fn sha256_streaming_matches_one_shot() {
    // chunks that straddle block boundaries, and a message whose padding
    // needs a second block
    let data: Vec<u8> = (0..200u32).map(|i| (i * 7 + 3) as u8).collect();
    let mut h = Sha256::new();
    h.update(&data[..1]);
    h.update(&data[1..70]);
    h.update(&data[70..128]);
    h.update(&data[128..]);
    assert_eq!(h.finalize(), sha256(&data));
    for len in [55usize, 56, 63, 64, 65, 119, 120] {
        let mut h = Sha256::new();
        h.update(&data[..len / 2]);
        h.update(&data[len / 2..len]);
        assert_eq!(h.finalize(), sha256(&data[..len]));
    }
}

#[test]
fn sha512_streaming_matches_one_shot() {
    let data: Vec<u8> = (0..300u32).map(|i| (i * 13 + 1) as u8).collect();
    let mut h = Sha512::new();
    h.update(&data[..5]);
    h.update(&data[5..140]);
    h.update(&data[140..256]);
    h.update(&data[256..]);
    assert_eq!(h.finalize(), sha512(&data));
    for len in [111usize, 112, 127, 128, 129, 239, 240] {
        let mut h = Sha512::new();
        h.update(&data[..len / 3]);
        h.update(&data[len / 3..len]);
        assert_eq!(h.finalize(), sha512(&data[..len]));
    }
}

#[test]
fn sha2_binding_agrees_with_own_sha2() {
    for msg in [&b""[..], &b"abc"[..], &b"The quick brown fox jumps over the lazy dog"[..]] {
        let mut h = [0u8; 32];
        hash_h_sha2(&mut h, msg, msg.len());
        assert_eq!(h, sha256(msg));
        let mut g = [0u8; 64];
        hash_g_sha2(&mut g, msg, msg.len());
        assert_eq!(g, sha512(msg));
    }
    let mut h = [0u8; 32];
    hash_h_sha2(&mut h, b"abc", 3);
    assert_eq!(
        hex(&h),
        "ba7816bf8f01cfea414140de5dae2223b00361a396177a9cb410ff61f20015ad"
    );
}

#[test]
fn sha2_binding_hashes_only_the_prefix() {
    let mut h = [0u8; 32];
    hash_h_sha2(&mut h, b"abcdef", 3);
    assert_eq!(h, sha256(b"abc"));
    let mut g = [7u8; 70];
    hash_g_sha2(&mut g, b"abcdef", 3);
    assert_eq!(g[..64], sha512(b"abc")[..]);
    assert_eq!(g[64..], [7u8; 6]);
}
