use kyber_pake::params::{KYBER_N, KYBER_POLYBYTES, KYBER_POLYVECBYTES, KYBER_Q};
use kyber_pake::poly::{
    poly_add, poly_frombytes, poly_frommsg, poly_reduce, poly_sub, poly_tobytes, poly_tomsg, Poly,
};
use kyber_pake::polyvec::{
    polyvec_add, polyvec_frombytes, polyvec_reduce, polyvec_sub, polyvec_tobytes, Polyvec,
};
use kyber_pake::reduce::barrett_reduce;

#[test]
fn barrett_reduce_values() {
    assert_eq!(barrett_reduce(0), 0);
    assert_eq!(barrett_reduce(3329), 0);
    assert_eq!(barrett_reduce(1664), 1664);
    assert_eq!(barrett_reduce(1665), -1664);
    assert_eq!(barrett_reduce(-1665), 1664);
    assert_eq!(barrett_reduce(3328), -1);
    assert_eq!(barrett_reduce(32767), -523);
    assert_eq!(barrett_reduce(-32768), 522);
    for a in i16::MIN..=i16::MAX {
        let r = barrett_reduce(a) as i32;
        assert!((-1664..=1664).contains(&r));
        assert_eq!((a as i32 - r).rem_euclid(3329), 0);
    }
}

#[test]
fn polyvec_packing_scenario() {
    let q = KYBER_Q as i16;
    let mut v = Polyvec::new();
    let start = [q - 1, -(q - 1) / 2, 0, 1];
    for i in 0..3 {
        for j in 0..KYBER_N {
            v.vec[i].coeffs[j] = if j < 4 { start[j] } else { ((j * 37 + i * 11) % 3329) as i16 - 1664 };
        }
    }
    let mut bytes = [0u8; KYBER_POLYVECBYTES];
    polyvec_tobytes(&mut bytes, &v);
    let mut back = Polyvec::new();
    polyvec_frombytes(&mut back, &bytes);
    // negatives come back lifted into [0, q)
    assert_eq!(back.vec[0].coeffs[0], 3328);
    assert_eq!(back.vec[0].coeffs[1], 1665);
    assert_eq!(back.vec[0].coeffs[2], 0);
    assert_eq!(back.vec[0].coeffs[3], 1);
    polyvec_reduce(&mut back);
    polyvec_reduce(&mut v);
    for i in 0..3 {
        assert_eq!(back.vec[i].coeffs, v.vec[i].coeffs);
    }
}

#[test]
fn poly_bytes_layout() {
    let mut p = Poly::new();
    p.coeffs[0] = 0x123;
    p.coeffs[1] = 0x456;
    p.coeffs[2] = -1;
    let mut bytes = [0xAAu8; KYBER_POLYBYTES + 2];
    poly_tobytes(&mut bytes, p);
    assert_eq!(bytes[0], 0x23);
    assert_eq!(bytes[1], 0x61);
    assert_eq!(bytes[2], 0x45);
    // -1 is written as q - 1 = 0xD00
    assert_eq!(bytes[3], 0x00);
    assert_eq!(bytes[4] & 0x0F, 0x0D);
    assert_eq!(bytes[KYBER_POLYBYTES..], [0xAA, 0xAA]);
    let mut back = Poly::new();
    poly_frombytes(&mut back, &bytes);
    assert_eq!(back.coeffs[0], 0x123);
    assert_eq!(back.coeffs[1], 0x456);
    assert_eq!(back.coeffs[2], 3328);
}

#[test]
fn frombytes_reads_twelve_bits() {
    let bytes = [0xFFu8; KYBER_POLYBYTES];
    let mut p = Poly::new();
    poly_frombytes(&mut p, &bytes);
    assert!(p.coeffs.iter().all(|&c| c == 4095));
}

#[test]
fn poly_add_sub_reduce() {
    let mut a = Poly::new();
    let mut b = Poly::new();
    for i in 0..KYBER_N {
        a.coeffs[i] = i as i16;
        b.coeffs[i] = 3000;
    }
    let a0 = a;
    poly_add(&mut a, &b);
    assert_eq!(a.coeffs[10], 3010);
    poly_reduce(&mut a);
    assert_eq!(a.coeffs[10], 3010 - 3329);
    let mut r = b;
    poly_sub(&mut r, &a0);
    // r = a0 - b
    assert_eq!(r.coeffs[10], 10 - 3000);
    let mut v = Polyvec::new();
    let mut w = Polyvec::new();
    v.vec[1].coeffs[5] = 7;
    w.vec[1].coeffs[5] = 2;
    polyvec_add(&mut v, &w);
    assert_eq!(v.vec[1].coeffs[5], 9);
    polyvec_sub(&mut v, &w);
    assert_eq!(v.vec[1].coeffs[5], 2 - 9);
}

#[test]
fn message_polynomial_round_trip() {
    let msg: [u8; 32] = core::array::from_fn(|i| (i * 29 + 5) as u8);
    let mut p = Poly::new();
    poly_frommsg(&mut p, &msg);
    assert_eq!(p.coeffs[0], if msg[0] & 1 == 1 { 1665 } else { 0 });
    let mut out = [0u8; 32];
    poly_tomsg(&mut out, p);
    assert_eq!(out, msg);
}
