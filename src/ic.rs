//! The ideal cipher on 32-byte blocks: Rijndael with a 256-bit block and a
//! 256-bit key (eight columns, fourteen rounds), one block at a time.
use vstd::prelude::*;

verus! {

/// The Rijndael S-box.
pub open spec fn sbox(x: u8) -> u8 {
    match x {
        0u8 => 0x63u8,
        1u8 => 0x7cu8,
        2u8 => 0x77u8,
        3u8 => 0x7bu8,
        4u8 => 0xf2u8,
        5u8 => 0x6bu8,
        6u8 => 0x6fu8,
        7u8 => 0xc5u8,
        8u8 => 0x30u8,
        9u8 => 0x01u8,
        10u8 => 0x67u8,
        11u8 => 0x2bu8,
        12u8 => 0xfeu8,
        13u8 => 0xd7u8,
        14u8 => 0xabu8,
        15u8 => 0x76u8,
        16u8 => 0xcau8,
        17u8 => 0x82u8,
        18u8 => 0xc9u8,
        19u8 => 0x7du8,
        20u8 => 0xfau8,
        21u8 => 0x59u8,
        22u8 => 0x47u8,
        23u8 => 0xf0u8,
        24u8 => 0xadu8,
        25u8 => 0xd4u8,
        26u8 => 0xa2u8,
        27u8 => 0xafu8,
        28u8 => 0x9cu8,
        29u8 => 0xa4u8,
        30u8 => 0x72u8,
        31u8 => 0xc0u8,
        32u8 => 0xb7u8,
        33u8 => 0xfdu8,
        34u8 => 0x93u8,
        35u8 => 0x26u8,
        36u8 => 0x36u8,
        37u8 => 0x3fu8,
        38u8 => 0xf7u8,
        39u8 => 0xccu8,
        40u8 => 0x34u8,
        41u8 => 0xa5u8,
        42u8 => 0xe5u8,
        43u8 => 0xf1u8,
        44u8 => 0x71u8,
        45u8 => 0xd8u8,
        46u8 => 0x31u8,
        47u8 => 0x15u8,
        48u8 => 0x04u8,
        49u8 => 0xc7u8,
        50u8 => 0x23u8,
        51u8 => 0xc3u8,
        52u8 => 0x18u8,
        53u8 => 0x96u8,
        54u8 => 0x05u8,
        55u8 => 0x9au8,
        56u8 => 0x07u8,
        57u8 => 0x12u8,
        58u8 => 0x80u8,
        59u8 => 0xe2u8,
        60u8 => 0xebu8,
        61u8 => 0x27u8,
        62u8 => 0xb2u8,
        63u8 => 0x75u8,
        64u8 => 0x09u8,
        65u8 => 0x83u8,
        66u8 => 0x2cu8,
        67u8 => 0x1au8,
        68u8 => 0x1bu8,
        69u8 => 0x6eu8,
        70u8 => 0x5au8,
        71u8 => 0xa0u8,
        72u8 => 0x52u8,
        73u8 => 0x3bu8,
        74u8 => 0xd6u8,
        75u8 => 0xb3u8,
        76u8 => 0x29u8,
        77u8 => 0xe3u8,
        78u8 => 0x2fu8,
        79u8 => 0x84u8,
        80u8 => 0x53u8,
        81u8 => 0xd1u8,
        82u8 => 0x00u8,
        83u8 => 0xedu8,
        84u8 => 0x20u8,
        85u8 => 0xfcu8,
        86u8 => 0xb1u8,
        87u8 => 0x5bu8,
        88u8 => 0x6au8,
        89u8 => 0xcbu8,
        90u8 => 0xbeu8,
        91u8 => 0x39u8,
        92u8 => 0x4au8,
        93u8 => 0x4cu8,
        94u8 => 0x58u8,
        95u8 => 0xcfu8,
        96u8 => 0xd0u8,
        97u8 => 0xefu8,
        98u8 => 0xaau8,
        99u8 => 0xfbu8,
        100u8 => 0x43u8,
        101u8 => 0x4du8,
        102u8 => 0x33u8,
        103u8 => 0x85u8,
        104u8 => 0x45u8,
        105u8 => 0xf9u8,
        106u8 => 0x02u8,
        107u8 => 0x7fu8,
        108u8 => 0x50u8,
        109u8 => 0x3cu8,
        110u8 => 0x9fu8,
        111u8 => 0xa8u8,
        112u8 => 0x51u8,
        113u8 => 0xa3u8,
        114u8 => 0x40u8,
        115u8 => 0x8fu8,
        116u8 => 0x92u8,
        117u8 => 0x9du8,
        118u8 => 0x38u8,
        119u8 => 0xf5u8,
        120u8 => 0xbcu8,
        121u8 => 0xb6u8,
        122u8 => 0xdau8,
        123u8 => 0x21u8,
        124u8 => 0x10u8,
        125u8 => 0xffu8,
        126u8 => 0xf3u8,
        127u8 => 0xd2u8,
        128u8 => 0xcdu8,
        129u8 => 0x0cu8,
        130u8 => 0x13u8,
        131u8 => 0xecu8,
        132u8 => 0x5fu8,
        133u8 => 0x97u8,
        134u8 => 0x44u8,
        135u8 => 0x17u8,
        136u8 => 0xc4u8,
        137u8 => 0xa7u8,
        138u8 => 0x7eu8,
        139u8 => 0x3du8,
        140u8 => 0x64u8,
        141u8 => 0x5du8,
        142u8 => 0x19u8,
        143u8 => 0x73u8,
        144u8 => 0x60u8,
        145u8 => 0x81u8,
        146u8 => 0x4fu8,
        147u8 => 0xdcu8,
        148u8 => 0x22u8,
        149u8 => 0x2au8,
        150u8 => 0x90u8,
        151u8 => 0x88u8,
        152u8 => 0x46u8,
        153u8 => 0xeeu8,
        154u8 => 0xb8u8,
        155u8 => 0x14u8,
        156u8 => 0xdeu8,
        157u8 => 0x5eu8,
        158u8 => 0x0bu8,
        159u8 => 0xdbu8,
        160u8 => 0xe0u8,
        161u8 => 0x32u8,
        162u8 => 0x3au8,
        163u8 => 0x0au8,
        164u8 => 0x49u8,
        165u8 => 0x06u8,
        166u8 => 0x24u8,
        167u8 => 0x5cu8,
        168u8 => 0xc2u8,
        169u8 => 0xd3u8,
        170u8 => 0xacu8,
        171u8 => 0x62u8,
        172u8 => 0x91u8,
        173u8 => 0x95u8,
        174u8 => 0xe4u8,
        175u8 => 0x79u8,
        176u8 => 0xe7u8,
        177u8 => 0xc8u8,
        178u8 => 0x37u8,
        179u8 => 0x6du8,
        180u8 => 0x8du8,
        181u8 => 0xd5u8,
        182u8 => 0x4eu8,
        183u8 => 0xa9u8,
        184u8 => 0x6cu8,
        185u8 => 0x56u8,
        186u8 => 0xf4u8,
        187u8 => 0xeau8,
        188u8 => 0x65u8,
        189u8 => 0x7au8,
        190u8 => 0xaeu8,
        191u8 => 0x08u8,
        192u8 => 0xbau8,
        193u8 => 0x78u8,
        194u8 => 0x25u8,
        195u8 => 0x2eu8,
        196u8 => 0x1cu8,
        197u8 => 0xa6u8,
        198u8 => 0xb4u8,
        199u8 => 0xc6u8,
        200u8 => 0xe8u8,
        201u8 => 0xddu8,
        202u8 => 0x74u8,
        203u8 => 0x1fu8,
        204u8 => 0x4bu8,
        205u8 => 0xbdu8,
        206u8 => 0x8bu8,
        207u8 => 0x8au8,
        208u8 => 0x70u8,
        209u8 => 0x3eu8,
        210u8 => 0xb5u8,
        211u8 => 0x66u8,
        212u8 => 0x48u8,
        213u8 => 0x03u8,
        214u8 => 0xf6u8,
        215u8 => 0x0eu8,
        216u8 => 0x61u8,
        217u8 => 0x35u8,
        218u8 => 0x57u8,
        219u8 => 0xb9u8,
        220u8 => 0x86u8,
        221u8 => 0xc1u8,
        222u8 => 0x1du8,
        223u8 => 0x9eu8,
        224u8 => 0xe1u8,
        225u8 => 0xf8u8,
        226u8 => 0x98u8,
        227u8 => 0x11u8,
        228u8 => 0x69u8,
        229u8 => 0xd9u8,
        230u8 => 0x8eu8,
        231u8 => 0x94u8,
        232u8 => 0x9bu8,
        233u8 => 0x1eu8,
        234u8 => 0x87u8,
        235u8 => 0xe9u8,
        236u8 => 0xceu8,
        237u8 => 0x55u8,
        238u8 => 0x28u8,
        239u8 => 0xdfu8,
        240u8 => 0x8cu8,
        241u8 => 0xa1u8,
        242u8 => 0x89u8,
        243u8 => 0x0du8,
        244u8 => 0xbfu8,
        245u8 => 0xe6u8,
        246u8 => 0x42u8,
        247u8 => 0x68u8,
        248u8 => 0x41u8,
        249u8 => 0x99u8,
        250u8 => 0x2du8,
        251u8 => 0x0fu8,
        252u8 => 0xb0u8,
        253u8 => 0x54u8,
        254u8 => 0xbbu8,
        255u8 => 0x16u8,
    }
}

/// The inverse of the Rijndael S-box.
pub open spec fn inv_sbox(x: u8) -> u8 {
    match x {
        0u8 => 0x52u8,
        1u8 => 0x09u8,
        2u8 => 0x6au8,
        3u8 => 0xd5u8,
        4u8 => 0x30u8,
        5u8 => 0x36u8,
        6u8 => 0xa5u8,
        7u8 => 0x38u8,
        8u8 => 0xbfu8,
        9u8 => 0x40u8,
        10u8 => 0xa3u8,
        11u8 => 0x9eu8,
        12u8 => 0x81u8,
        13u8 => 0xf3u8,
        14u8 => 0xd7u8,
        15u8 => 0xfbu8,
        16u8 => 0x7cu8,
        17u8 => 0xe3u8,
        18u8 => 0x39u8,
        19u8 => 0x82u8,
        20u8 => 0x9bu8,
        21u8 => 0x2fu8,
        22u8 => 0xffu8,
        23u8 => 0x87u8,
        24u8 => 0x34u8,
        25u8 => 0x8eu8,
        26u8 => 0x43u8,
        27u8 => 0x44u8,
        28u8 => 0xc4u8,
        29u8 => 0xdeu8,
        30u8 => 0xe9u8,
        31u8 => 0xcbu8,
        32u8 => 0x54u8,
        33u8 => 0x7bu8,
        34u8 => 0x94u8,
        35u8 => 0x32u8,
        36u8 => 0xa6u8,
        37u8 => 0xc2u8,
        38u8 => 0x23u8,
        39u8 => 0x3du8,
        40u8 => 0xeeu8,
        41u8 => 0x4cu8,
        42u8 => 0x95u8,
        43u8 => 0x0bu8,
        44u8 => 0x42u8,
        45u8 => 0xfau8,
        46u8 => 0xc3u8,
        47u8 => 0x4eu8,
        48u8 => 0x08u8,
        49u8 => 0x2eu8,
        50u8 => 0xa1u8,
        51u8 => 0x66u8,
        52u8 => 0x28u8,
        53u8 => 0xd9u8,
        54u8 => 0x24u8,
        55u8 => 0xb2u8,
        56u8 => 0x76u8,
        57u8 => 0x5bu8,
        58u8 => 0xa2u8,
        59u8 => 0x49u8,
        60u8 => 0x6du8,
        61u8 => 0x8bu8,
        62u8 => 0xd1u8,
        63u8 => 0x25u8,
        64u8 => 0x72u8,
        65u8 => 0xf8u8,
        66u8 => 0xf6u8,
        67u8 => 0x64u8,
        68u8 => 0x86u8,
        69u8 => 0x68u8,
        70u8 => 0x98u8,
        71u8 => 0x16u8,
        72u8 => 0xd4u8,
        73u8 => 0xa4u8,
        74u8 => 0x5cu8,
        75u8 => 0xccu8,
        76u8 => 0x5du8,
        77u8 => 0x65u8,
        78u8 => 0xb6u8,
        79u8 => 0x92u8,
        80u8 => 0x6cu8,
        81u8 => 0x70u8,
        82u8 => 0x48u8,
        83u8 => 0x50u8,
        84u8 => 0xfdu8,
        85u8 => 0xedu8,
        86u8 => 0xb9u8,
        87u8 => 0xdau8,
        88u8 => 0x5eu8,
        89u8 => 0x15u8,
        90u8 => 0x46u8,
        91u8 => 0x57u8,
        92u8 => 0xa7u8,
        93u8 => 0x8du8,
        94u8 => 0x9du8,
        95u8 => 0x84u8,
        96u8 => 0x90u8,
        97u8 => 0xd8u8,
        98u8 => 0xabu8,
        99u8 => 0x00u8,
        100u8 => 0x8cu8,
        101u8 => 0xbcu8,
        102u8 => 0xd3u8,
        103u8 => 0x0au8,
        104u8 => 0xf7u8,
        105u8 => 0xe4u8,
        106u8 => 0x58u8,
        107u8 => 0x05u8,
        108u8 => 0xb8u8,
        109u8 => 0xb3u8,
        110u8 => 0x45u8,
        111u8 => 0x06u8,
        112u8 => 0xd0u8,
        113u8 => 0x2cu8,
        114u8 => 0x1eu8,
        115u8 => 0x8fu8,
        116u8 => 0xcau8,
        117u8 => 0x3fu8,
        118u8 => 0x0fu8,
        119u8 => 0x02u8,
        120u8 => 0xc1u8,
        121u8 => 0xafu8,
        122u8 => 0xbdu8,
        123u8 => 0x03u8,
        124u8 => 0x01u8,
        125u8 => 0x13u8,
        126u8 => 0x8au8,
        127u8 => 0x6bu8,
        128u8 => 0x3au8,
        129u8 => 0x91u8,
        130u8 => 0x11u8,
        131u8 => 0x41u8,
        132u8 => 0x4fu8,
        133u8 => 0x67u8,
        134u8 => 0xdcu8,
        135u8 => 0xeau8,
        136u8 => 0x97u8,
        137u8 => 0xf2u8,
        138u8 => 0xcfu8,
        139u8 => 0xceu8,
        140u8 => 0xf0u8,
        141u8 => 0xb4u8,
        142u8 => 0xe6u8,
        143u8 => 0x73u8,
        144u8 => 0x96u8,
        145u8 => 0xacu8,
        146u8 => 0x74u8,
        147u8 => 0x22u8,
        148u8 => 0xe7u8,
        149u8 => 0xadu8,
        150u8 => 0x35u8,
        151u8 => 0x85u8,
        152u8 => 0xe2u8,
        153u8 => 0xf9u8,
        154u8 => 0x37u8,
        155u8 => 0xe8u8,
        156u8 => 0x1cu8,
        157u8 => 0x75u8,
        158u8 => 0xdfu8,
        159u8 => 0x6eu8,
        160u8 => 0x47u8,
        161u8 => 0xf1u8,
        162u8 => 0x1au8,
        163u8 => 0x71u8,
        164u8 => 0x1du8,
        165u8 => 0x29u8,
        166u8 => 0xc5u8,
        167u8 => 0x89u8,
        168u8 => 0x6fu8,
        169u8 => 0xb7u8,
        170u8 => 0x62u8,
        171u8 => 0x0eu8,
        172u8 => 0xaau8,
        173u8 => 0x18u8,
        174u8 => 0xbeu8,
        175u8 => 0x1bu8,
        176u8 => 0xfcu8,
        177u8 => 0x56u8,
        178u8 => 0x3eu8,
        179u8 => 0x4bu8,
        180u8 => 0xc6u8,
        181u8 => 0xd2u8,
        182u8 => 0x79u8,
        183u8 => 0x20u8,
        184u8 => 0x9au8,
        185u8 => 0xdbu8,
        186u8 => 0xc0u8,
        187u8 => 0xfeu8,
        188u8 => 0x78u8,
        189u8 => 0xcdu8,
        190u8 => 0x5au8,
        191u8 => 0xf4u8,
        192u8 => 0x1fu8,
        193u8 => 0xddu8,
        194u8 => 0xa8u8,
        195u8 => 0x33u8,
        196u8 => 0x88u8,
        197u8 => 0x07u8,
        198u8 => 0xc7u8,
        199u8 => 0x31u8,
        200u8 => 0xb1u8,
        201u8 => 0x12u8,
        202u8 => 0x10u8,
        203u8 => 0x59u8,
        204u8 => 0x27u8,
        205u8 => 0x80u8,
        206u8 => 0xecu8,
        207u8 => 0x5fu8,
        208u8 => 0x60u8,
        209u8 => 0x51u8,
        210u8 => 0x7fu8,
        211u8 => 0xa9u8,
        212u8 => 0x19u8,
        213u8 => 0xb5u8,
        214u8 => 0x4au8,
        215u8 => 0x0du8,
        216u8 => 0x2du8,
        217u8 => 0xe5u8,
        218u8 => 0x7au8,
        219u8 => 0x9fu8,
        220u8 => 0x93u8,
        221u8 => 0xc9u8,
        222u8 => 0x9cu8,
        223u8 => 0xefu8,
        224u8 => 0xa0u8,
        225u8 => 0xe0u8,
        226u8 => 0x3bu8,
        227u8 => 0x4du8,
        228u8 => 0xaeu8,
        229u8 => 0x2au8,
        230u8 => 0xf5u8,
        231u8 => 0xb0u8,
        232u8 => 0xc8u8,
        233u8 => 0xebu8,
        234u8 => 0xbbu8,
        235u8 => 0x3cu8,
        236u8 => 0x83u8,
        237u8 => 0x53u8,
        238u8 => 0x99u8,
        239u8 => 0x61u8,
        240u8 => 0x17u8,
        241u8 => 0x2bu8,
        242u8 => 0x04u8,
        243u8 => 0x7eu8,
        244u8 => 0xbau8,
        245u8 => 0x77u8,
        246u8 => 0xd6u8,
        247u8 => 0x26u8,
        248u8 => 0xe1u8,
        249u8 => 0x69u8,
        250u8 => 0x14u8,
        251u8 => 0x63u8,
        252u8 => 0x55u8,
        253u8 => 0x21u8,
        254u8 => 0x0cu8,
        255u8 => 0x7du8,
    }
}

/// Multiplication by `x` in GF(2^8) modulo `x^8 + x^4 + x^3 + x + 1`.
pub open spec fn xtime(b: u8) -> u8 {
    (b << 1u8) ^ (if b & 0x80u8 == 0x80u8 {
        0x1bu8
    } else {
        0u8
    })
}

pub open spec fn mul3(b: u8) -> u8 {
    xtime(b) ^ b
}

pub open spec fn mul9(b: u8) -> u8 {
    xtime(xtime(xtime(b))) ^ b
}

pub open spec fn mul11(b: u8) -> u8 {
    xtime(xtime(xtime(b))) ^ xtime(b) ^ b
}

pub open spec fn mul13(b: u8) -> u8 {
    xtime(xtime(xtime(b))) ^ xtime(xtime(b)) ^ b
}

pub open spec fn mul14(b: u8) -> u8 {
    xtime(xtime(xtime(b))) ^ xtime(xtime(b)) ^ xtime(b)
}

/// Row `r` of MixColumns applied to the column `a0, a1, a2, a3`.
pub open spec fn mix_byte(a0: u8, a1: u8, a2: u8, a3: u8, r: int) -> u8 {
    if r == 0 {
        xtime(a0) ^ mul3(a1) ^ a2 ^ a3
    } else if r == 1 {
        a0 ^ xtime(a1) ^ mul3(a2) ^ a3
    } else if r == 2 {
        a0 ^ a1 ^ xtime(a2) ^ mul3(a3)
    } else {
        mul3(a0) ^ a1 ^ a2 ^ xtime(a3)
    }
}

/// Row `r` of InvMixColumns applied to the column `a0, a1, a2, a3`.
pub open spec fn inv_mix_byte(a0: u8, a1: u8, a2: u8, a3: u8, r: int) -> u8 {
    if r == 0 {
        mul14(a0) ^ mul11(a1) ^ mul13(a2) ^ mul9(a3)
    } else if r == 1 {
        mul9(a0) ^ mul14(a1) ^ mul11(a2) ^ mul13(a3)
    } else if r == 2 {
        mul13(a0) ^ mul9(a1) ^ mul14(a2) ^ mul11(a3)
    } else {
        mul11(a0) ^ mul13(a1) ^ mul9(a2) ^ mul14(a3)
    }
}

/// How far row `r` of the state is rotated left by ShiftRows with eight columns.
pub open spec fn row_shift(r: int) -> int {
    if r == 0 {
        0
    } else if r == 1 {
        1
    } else if r == 2 {
        3
    } else {
        4
    }
}

/// The state is 32 bytes in column order: byte `j` is row `j % 4` of column `j / 4`.
pub open spec fn sub_bytes(s: Seq<u8>) -> Seq<u8> {
    Seq::new(32, |j: int| sbox(s[j]))
}

pub open spec fn inv_sub_bytes(s: Seq<u8>) -> Seq<u8> {
    Seq::new(32, |j: int| inv_sbox(s[j]))
}

pub open spec fn shift_rows(s: Seq<u8>) -> Seq<u8> {
    Seq::new(32, |j: int| s[j % 4 + 4 * ((j / 4 + row_shift(j % 4)) % 8)])
}

pub open spec fn inv_shift_rows(s: Seq<u8>) -> Seq<u8> {
    Seq::new(32, |j: int| s[j % 4 + 4 * ((j / 4 + 8 - row_shift(j % 4)) % 8)])
}

pub open spec fn mix_columns(s: Seq<u8>) -> Seq<u8> {
    Seq::new(
        32,
        |j: int| mix_byte(s[4 * (j / 4)], s[4 * (j / 4) + 1], s[4 * (j / 4) + 2], s[4 * (j / 4) + 3], j % 4),
    )
}

pub open spec fn inv_mix_columns(s: Seq<u8>) -> Seq<u8> {
    Seq::new(
        32,
        |j: int|
            inv_mix_byte(s[4 * (j / 4)], s[4 * (j / 4) + 1], s[4 * (j / 4) + 2], s[4 * (j / 4) + 3], j % 4),
    )
}

pub open spec fn add_round_key(s: Seq<u8>, k: Seq<u8>) -> Seq<u8> {
    Seq::new(32, |j: int| s[j] ^ k[j])
}

/// The round constant of key-schedule step `n` (from 1): `x^(n-1)` in GF(2^8).
pub open spec fn rcon(n: nat) -> u8
    decreases n,
{
    if n <= 1 {
        1u8
    } else {
        xtime(rcon((n - 1) as nat))
    }
}

/// Byte `k` of word `i` of the key schedule of a 256-bit key.
pub open spec fn key_byte(key: Seq<u8>, i: nat, k: int) -> u8
    decreases i, 1int,
{
    if i < 8 {
        key[4 * i + k]
    } else {
        key_byte(key, (i - 8) as nat, k) ^ schedule_temp(key, i, k)
    }
}

/// Byte `k` of the word mixed into word `i` (at least 8) of the key schedule.
pub open spec fn schedule_temp(key: Seq<u8>, i: nat, k: int) -> u8
    decreases i, 0int,
{
    if i < 8 {
        0u8
    } else if i % 8 == 0 {
        let p = (i - 1) as nat;
        if k == 0 {
            sbox(key_byte(key, p, 1)) ^ rcon(i / 8)
        } else if k == 1 {
            sbox(key_byte(key, p, 2))
        } else if k == 2 {
            sbox(key_byte(key, p, 3))
        } else {
            sbox(key_byte(key, p, 0))
        }
    } else if i % 8 == 4 {
        sbox(key_byte(key, (i - 1) as nat, k))
    } else {
        key_byte(key, (i - 1) as nat, k)
    }
}

/// The 120-word (480-byte) key schedule.
pub open spec fn key_schedule(key: Seq<u8>) -> Seq<u8> {
    Seq::new(480, |j: int| key_byte(key, (j / 4) as nat, j % 4))
}

pub open spec fn round_key(ks: Seq<u8>, r: int) -> Seq<u8> {
    ks.subrange(32 * r, 32 * r + 32)
}

/// The state after round `r` (0 to 13) of encryption.
pub open spec fn enc_upto(b: Seq<u8>, ks: Seq<u8>, r: nat) -> Seq<u8>
    decreases r,
{
    if r == 0 {
        add_round_key(b, round_key(ks, 0))
    } else {
        add_round_key(
            mix_columns(shift_rows(sub_bytes(enc_upto(b, ks, (r - 1) as nat)))),
            round_key(ks, r as int),
        )
    }
}

/// Encryption of one block under a key schedule.
pub open spec fn rijndael_encrypt(b: Seq<u8>, ks: Seq<u8>) -> Seq<u8> {
    add_round_key(shift_rows(sub_bytes(enc_upto(b, ks, 13))), round_key(ks, 14))
}

/// Undoes rounds `r` down to 0 of encryption.
pub open spec fn undo_upto(s: Seq<u8>, ks: Seq<u8>, r: nat) -> Seq<u8>
    decreases r,
{
    if r == 0 {
        add_round_key(s, round_key(ks, 0))
    } else {
        undo_upto(
            inv_sub_bytes(inv_shift_rows(inv_mix_columns(add_round_key(s, round_key(ks, r as int))))),
            ks,
            (r - 1) as nat,
        )
    }
}

/// Decryption of one block under a key schedule.
pub open spec fn rijndael_decrypt(c: Seq<u8>, ks: Seq<u8>) -> Seq<u8> {
    undo_upto(inv_sub_bytes(inv_shift_rows(add_round_key(c, round_key(ks, 14)))), ks, 13)
}

/// The ideal cipher: encryption of a 32-byte block under a 32-byte key.
pub open spec fn ic_enc_spec(block: Seq<u8>, key: Seq<u8>) -> Seq<u8> {
    rijndael_encrypt(block, key_schedule(key))
}

/// The ideal cipher: decryption of a 32-byte block under a 32-byte key.
pub open spec fn ic_dec_spec(block: Seq<u8>, key: Seq<u8>) -> Seq<u8> {
    rijndael_decrypt(block, key_schedule(key))
}

proof fn lemma_sbox_inverse(x: u8)
    ensures
        inv_sbox(sbox(x)) == x,
{
}

proof fn lemma_mix_inverse(a0: u8, a1: u8, a2: u8, a3: u8)
    by (bit_vector)
    ensures
        inv_mix_byte(
            mix_byte(a0, a1, a2, a3, 0),
            mix_byte(a0, a1, a2, a3, 1),
            mix_byte(a0, a1, a2, a3, 2),
            mix_byte(a0, a1, a2, a3, 3),
            0,
        ) == a0,
        inv_mix_byte(
            mix_byte(a0, a1, a2, a3, 0),
            mix_byte(a0, a1, a2, a3, 1),
            mix_byte(a0, a1, a2, a3, 2),
            mix_byte(a0, a1, a2, a3, 3),
            1,
        ) == a1,
        inv_mix_byte(
            mix_byte(a0, a1, a2, a3, 0),
            mix_byte(a0, a1, a2, a3, 1),
            mix_byte(a0, a1, a2, a3, 2),
            mix_byte(a0, a1, a2, a3, 3),
            2,
        ) == a2,
        inv_mix_byte(
            mix_byte(a0, a1, a2, a3, 0),
            mix_byte(a0, a1, a2, a3, 1),
            mix_byte(a0, a1, a2, a3, 2),
            mix_byte(a0, a1, a2, a3, 3),
            3,
        ) == a3,
{
}

proof fn lemma_xor_twice(a: u8, k: u8)
    by (bit_vector)
    ensures
        (a ^ k) ^ k == a,
{
}

proof fn lemma_sub_bytes_inverse(s: Seq<u8>)
    requires
        s.len() == 32,
    ensures
        inv_sub_bytes(sub_bytes(s)) == s,
{
    assert forall|j: int| 0 <= j < 32 implies #[trigger] inv_sub_bytes(sub_bytes(s))[j] == s[j] by {
        lemma_sbox_inverse(s[j]);
    }
    assert(inv_sub_bytes(sub_bytes(s)) =~= s);
}

proof fn lemma_shift_index(j: int)
    requires
        0 <= j < 32,
    ensures
        ({
            let r = j % 4;
            let j2 = r + 4 * ((j / 4 + 8 - row_shift(r)) % 8);
            &&& 0 <= j2 < 32
            &&& j2 % 4 + 4 * ((j2 / 4 + row_shift(j2 % 4)) % 8) == j
        }),
{
    let r = j % 4;
    let c = j / 4;
    assert(0 <= r < 4 && 0 <= c < 8 && j == r + 4 * c);
    let c2 = (c + 8 - row_shift(r)) % 8;
    assert(0 <= c2 < 8);
    let j2 = r + 4 * c2;
    assert(j2 % 4 == r && j2 / 4 == c2);
    assert((c2 + row_shift(r)) % 8 == c);
}

proof fn lemma_shift_rows_inverse(s: Seq<u8>)
    requires
        s.len() == 32,
    ensures
        inv_shift_rows(shift_rows(s)) == s,
{
    assert forall|j: int| 0 <= j < 32 implies #[trigger] inv_shift_rows(shift_rows(s))[j] == s[j] by {
        lemma_shift_index(j);
    }
    assert(inv_shift_rows(shift_rows(s)) =~= s);
}

proof fn lemma_column_index(j: int)
    requires
        0 <= j < 32,
    ensures
        0 <= 4 * (j / 4) && 4 * (j / 4) + 3 < 32,
        (4 * (j / 4)) / 4 == j / 4,
        (4 * (j / 4) + 1) / 4 == j / 4,
        (4 * (j / 4) + 2) / 4 == j / 4,
        (4 * (j / 4) + 3) / 4 == j / 4,
        (4 * (j / 4)) % 4 == 0,
        (4 * (j / 4) + 1) % 4 == 1,
        (4 * (j / 4) + 2) % 4 == 2,
        (4 * (j / 4) + 3) % 4 == 3,
        j == 4 * (j / 4) + j % 4,
{
}

proof fn lemma_mix_columns_inverse(s: Seq<u8>)
    requires
        s.len() == 32,
    ensures
        inv_mix_columns(mix_columns(s)) == s,
{
    let m = mix_columns(s);
    assert forall|j: int| 0 <= j < 32 implies #[trigger] inv_mix_columns(m)[j] == s[j] by {
        let c = j / 4;
        lemma_column_index(j);
        lemma_mix_inverse(s[4 * c], s[4 * c + 1], s[4 * c + 2], s[4 * c + 3]);
        assert(m[4 * c] == mix_byte(s[4 * c], s[4 * c + 1], s[4 * c + 2], s[4 * c + 3], 0));
        assert(m[4 * c + 1] == mix_byte(s[4 * c], s[4 * c + 1], s[4 * c + 2], s[4 * c + 3], 1));
        assert(m[4 * c + 2] == mix_byte(s[4 * c], s[4 * c + 1], s[4 * c + 2], s[4 * c + 3], 2));
        assert(m[4 * c + 3] == mix_byte(s[4 * c], s[4 * c + 1], s[4 * c + 2], s[4 * c + 3], 3));
    }
    assert(inv_mix_columns(m) =~= s);
}

proof fn lemma_add_round_key_twice(s: Seq<u8>, k: Seq<u8>)
    requires
        s.len() == 32,
        k.len() == 32,
    ensures
        add_round_key(add_round_key(s, k), k) == s,
{
    assert forall|j: int| 0 <= j < 32 implies #[trigger] add_round_key(add_round_key(s, k), k)[j]
        == s[j] by {
        lemma_xor_twice(s[j], k[j]);
    }
    assert(add_round_key(add_round_key(s, k), k) =~= s);
}

proof fn lemma_undo_enc(b: Seq<u8>, ks: Seq<u8>, r: nat)
    requires
        b.len() == 32,
        ks.len() == 480,
        r <= 14,
    ensures
        undo_upto(enc_upto(b, ks, r), ks, r) == b,
    decreases r,
{
    if r == 0 {
        lemma_add_round_key_twice(b, round_key(ks, 0));
    } else {
        let prev = enc_upto(b, ks, (r - 1) as nat);
        let k = round_key(ks, r as int);
        let t = mix_columns(shift_rows(sub_bytes(prev)));
        assert(prev.len() == 32) by {
            if r - 1 > 0 {
            }
        }
        lemma_add_round_key_twice(t, k);
        lemma_mix_columns_inverse(shift_rows(sub_bytes(prev)));
        lemma_shift_rows_inverse(sub_bytes(prev));
        lemma_sub_bytes_inverse(prev);
        lemma_undo_enc(b, ks, (r - 1) as nat);
    }
}

/// Decryption undoes encryption under the same key.
pub proof fn lemma_ic_round_trip(block: Seq<u8>, key: Seq<u8>)
    requires
        block.len() == 32,
    ensures
        ic_dec_spec(ic_enc_spec(block, key), key) == block,
{
    let ks = key_schedule(key);
    let s13 = enc_upto(block, ks, 13);
    let k14 = round_key(ks, 14);
    lemma_add_round_key_twice(shift_rows(sub_bytes(s13)), k14);
    lemma_shift_rows_inverse(sub_bytes(s13));
    lemma_sub_bytes_inverse(s13);
    lemma_undo_enc(block, ks, 13);
}

fn sbox_lookup(x: u8) -> (r: u8)
    ensures
        r == sbox(x),
{
    match x {
        0u8 => 0x63u8,
        1u8 => 0x7cu8,
        2u8 => 0x77u8,
        3u8 => 0x7bu8,
        4u8 => 0xf2u8,
        5u8 => 0x6bu8,
        6u8 => 0x6fu8,
        7u8 => 0xc5u8,
        8u8 => 0x30u8,
        9u8 => 0x01u8,
        10u8 => 0x67u8,
        11u8 => 0x2bu8,
        12u8 => 0xfeu8,
        13u8 => 0xd7u8,
        14u8 => 0xabu8,
        15u8 => 0x76u8,
        16u8 => 0xcau8,
        17u8 => 0x82u8,
        18u8 => 0xc9u8,
        19u8 => 0x7du8,
        20u8 => 0xfau8,
        21u8 => 0x59u8,
        22u8 => 0x47u8,
        23u8 => 0xf0u8,
        24u8 => 0xadu8,
        25u8 => 0xd4u8,
        26u8 => 0xa2u8,
        27u8 => 0xafu8,
        28u8 => 0x9cu8,
        29u8 => 0xa4u8,
        30u8 => 0x72u8,
        31u8 => 0xc0u8,
        32u8 => 0xb7u8,
        33u8 => 0xfdu8,
        34u8 => 0x93u8,
        35u8 => 0x26u8,
        36u8 => 0x36u8,
        37u8 => 0x3fu8,
        38u8 => 0xf7u8,
        39u8 => 0xccu8,
        40u8 => 0x34u8,
        41u8 => 0xa5u8,
        42u8 => 0xe5u8,
        43u8 => 0xf1u8,
        44u8 => 0x71u8,
        45u8 => 0xd8u8,
        46u8 => 0x31u8,
        47u8 => 0x15u8,
        48u8 => 0x04u8,
        49u8 => 0xc7u8,
        50u8 => 0x23u8,
        51u8 => 0xc3u8,
        52u8 => 0x18u8,
        53u8 => 0x96u8,
        54u8 => 0x05u8,
        55u8 => 0x9au8,
        56u8 => 0x07u8,
        57u8 => 0x12u8,
        58u8 => 0x80u8,
        59u8 => 0xe2u8,
        60u8 => 0xebu8,
        61u8 => 0x27u8,
        62u8 => 0xb2u8,
        63u8 => 0x75u8,
        64u8 => 0x09u8,
        65u8 => 0x83u8,
        66u8 => 0x2cu8,
        67u8 => 0x1au8,
        68u8 => 0x1bu8,
        69u8 => 0x6eu8,
        70u8 => 0x5au8,
        71u8 => 0xa0u8,
        72u8 => 0x52u8,
        73u8 => 0x3bu8,
        74u8 => 0xd6u8,
        75u8 => 0xb3u8,
        76u8 => 0x29u8,
        77u8 => 0xe3u8,
        78u8 => 0x2fu8,
        79u8 => 0x84u8,
        80u8 => 0x53u8,
        81u8 => 0xd1u8,
        82u8 => 0x00u8,
        83u8 => 0xedu8,
        84u8 => 0x20u8,
        85u8 => 0xfcu8,
        86u8 => 0xb1u8,
        87u8 => 0x5bu8,
        88u8 => 0x6au8,
        89u8 => 0xcbu8,
        90u8 => 0xbeu8,
        91u8 => 0x39u8,
        92u8 => 0x4au8,
        93u8 => 0x4cu8,
        94u8 => 0x58u8,
        95u8 => 0xcfu8,
        96u8 => 0xd0u8,
        97u8 => 0xefu8,
        98u8 => 0xaau8,
        99u8 => 0xfbu8,
        100u8 => 0x43u8,
        101u8 => 0x4du8,
        102u8 => 0x33u8,
        103u8 => 0x85u8,
        104u8 => 0x45u8,
        105u8 => 0xf9u8,
        106u8 => 0x02u8,
        107u8 => 0x7fu8,
        108u8 => 0x50u8,
        109u8 => 0x3cu8,
        110u8 => 0x9fu8,
        111u8 => 0xa8u8,
        112u8 => 0x51u8,
        113u8 => 0xa3u8,
        114u8 => 0x40u8,
        115u8 => 0x8fu8,
        116u8 => 0x92u8,
        117u8 => 0x9du8,
        118u8 => 0x38u8,
        119u8 => 0xf5u8,
        120u8 => 0xbcu8,
        121u8 => 0xb6u8,
        122u8 => 0xdau8,
        123u8 => 0x21u8,
        124u8 => 0x10u8,
        125u8 => 0xffu8,
        126u8 => 0xf3u8,
        127u8 => 0xd2u8,
        128u8 => 0xcdu8,
        129u8 => 0x0cu8,
        130u8 => 0x13u8,
        131u8 => 0xecu8,
        132u8 => 0x5fu8,
        133u8 => 0x97u8,
        134u8 => 0x44u8,
        135u8 => 0x17u8,
        136u8 => 0xc4u8,
        137u8 => 0xa7u8,
        138u8 => 0x7eu8,
        139u8 => 0x3du8,
        140u8 => 0x64u8,
        141u8 => 0x5du8,
        142u8 => 0x19u8,
        143u8 => 0x73u8,
        144u8 => 0x60u8,
        145u8 => 0x81u8,
        146u8 => 0x4fu8,
        147u8 => 0xdcu8,
        148u8 => 0x22u8,
        149u8 => 0x2au8,
        150u8 => 0x90u8,
        151u8 => 0x88u8,
        152u8 => 0x46u8,
        153u8 => 0xeeu8,
        154u8 => 0xb8u8,
        155u8 => 0x14u8,
        156u8 => 0xdeu8,
        157u8 => 0x5eu8,
        158u8 => 0x0bu8,
        159u8 => 0xdbu8,
        160u8 => 0xe0u8,
        161u8 => 0x32u8,
        162u8 => 0x3au8,
        163u8 => 0x0au8,
        164u8 => 0x49u8,
        165u8 => 0x06u8,
        166u8 => 0x24u8,
        167u8 => 0x5cu8,
        168u8 => 0xc2u8,
        169u8 => 0xd3u8,
        170u8 => 0xacu8,
        171u8 => 0x62u8,
        172u8 => 0x91u8,
        173u8 => 0x95u8,
        174u8 => 0xe4u8,
        175u8 => 0x79u8,
        176u8 => 0xe7u8,
        177u8 => 0xc8u8,
        178u8 => 0x37u8,
        179u8 => 0x6du8,
        180u8 => 0x8du8,
        181u8 => 0xd5u8,
        182u8 => 0x4eu8,
        183u8 => 0xa9u8,
        184u8 => 0x6cu8,
        185u8 => 0x56u8,
        186u8 => 0xf4u8,
        187u8 => 0xeau8,
        188u8 => 0x65u8,
        189u8 => 0x7au8,
        190u8 => 0xaeu8,
        191u8 => 0x08u8,
        192u8 => 0xbau8,
        193u8 => 0x78u8,
        194u8 => 0x25u8,
        195u8 => 0x2eu8,
        196u8 => 0x1cu8,
        197u8 => 0xa6u8,
        198u8 => 0xb4u8,
        199u8 => 0xc6u8,
        200u8 => 0xe8u8,
        201u8 => 0xddu8,
        202u8 => 0x74u8,
        203u8 => 0x1fu8,
        204u8 => 0x4bu8,
        205u8 => 0xbdu8,
        206u8 => 0x8bu8,
        207u8 => 0x8au8,
        208u8 => 0x70u8,
        209u8 => 0x3eu8,
        210u8 => 0xb5u8,
        211u8 => 0x66u8,
        212u8 => 0x48u8,
        213u8 => 0x03u8,
        214u8 => 0xf6u8,
        215u8 => 0x0eu8,
        216u8 => 0x61u8,
        217u8 => 0x35u8,
        218u8 => 0x57u8,
        219u8 => 0xb9u8,
        220u8 => 0x86u8,
        221u8 => 0xc1u8,
        222u8 => 0x1du8,
        223u8 => 0x9eu8,
        224u8 => 0xe1u8,
        225u8 => 0xf8u8,
        226u8 => 0x98u8,
        227u8 => 0x11u8,
        228u8 => 0x69u8,
        229u8 => 0xd9u8,
        230u8 => 0x8eu8,
        231u8 => 0x94u8,
        232u8 => 0x9bu8,
        233u8 => 0x1eu8,
        234u8 => 0x87u8,
        235u8 => 0xe9u8,
        236u8 => 0xceu8,
        237u8 => 0x55u8,
        238u8 => 0x28u8,
        239u8 => 0xdfu8,
        240u8 => 0x8cu8,
        241u8 => 0xa1u8,
        242u8 => 0x89u8,
        243u8 => 0x0du8,
        244u8 => 0xbfu8,
        245u8 => 0xe6u8,
        246u8 => 0x42u8,
        247u8 => 0x68u8,
        248u8 => 0x41u8,
        249u8 => 0x99u8,
        250u8 => 0x2du8,
        251u8 => 0x0fu8,
        252u8 => 0xb0u8,
        253u8 => 0x54u8,
        254u8 => 0xbbu8,
        255u8 => 0x16u8,
    }
}

fn inv_sbox_lookup(x: u8) -> (r: u8)
    ensures
        r == inv_sbox(x),
{
    match x {
        0u8 => 0x52u8,
        1u8 => 0x09u8,
        2u8 => 0x6au8,
        3u8 => 0xd5u8,
        4u8 => 0x30u8,
        5u8 => 0x36u8,
        6u8 => 0xa5u8,
        7u8 => 0x38u8,
        8u8 => 0xbfu8,
        9u8 => 0x40u8,
        10u8 => 0xa3u8,
        11u8 => 0x9eu8,
        12u8 => 0x81u8,
        13u8 => 0xf3u8,
        14u8 => 0xd7u8,
        15u8 => 0xfbu8,
        16u8 => 0x7cu8,
        17u8 => 0xe3u8,
        18u8 => 0x39u8,
        19u8 => 0x82u8,
        20u8 => 0x9bu8,
        21u8 => 0x2fu8,
        22u8 => 0xffu8,
        23u8 => 0x87u8,
        24u8 => 0x34u8,
        25u8 => 0x8eu8,
        26u8 => 0x43u8,
        27u8 => 0x44u8,
        28u8 => 0xc4u8,
        29u8 => 0xdeu8,
        30u8 => 0xe9u8,
        31u8 => 0xcbu8,
        32u8 => 0x54u8,
        33u8 => 0x7bu8,
        34u8 => 0x94u8,
        35u8 => 0x32u8,
        36u8 => 0xa6u8,
        37u8 => 0xc2u8,
        38u8 => 0x23u8,
        39u8 => 0x3du8,
        40u8 => 0xeeu8,
        41u8 => 0x4cu8,
        42u8 => 0x95u8,
        43u8 => 0x0bu8,
        44u8 => 0x42u8,
        45u8 => 0xfau8,
        46u8 => 0xc3u8,
        47u8 => 0x4eu8,
        48u8 => 0x08u8,
        49u8 => 0x2eu8,
        50u8 => 0xa1u8,
        51u8 => 0x66u8,
        52u8 => 0x28u8,
        53u8 => 0xd9u8,
        54u8 => 0x24u8,
        55u8 => 0xb2u8,
        56u8 => 0x76u8,
        57u8 => 0x5bu8,
        58u8 => 0xa2u8,
        59u8 => 0x49u8,
        60u8 => 0x6du8,
        61u8 => 0x8bu8,
        62u8 => 0xd1u8,
        63u8 => 0x25u8,
        64u8 => 0x72u8,
        65u8 => 0xf8u8,
        66u8 => 0xf6u8,
        67u8 => 0x64u8,
        68u8 => 0x86u8,
        69u8 => 0x68u8,
        70u8 => 0x98u8,
        71u8 => 0x16u8,
        72u8 => 0xd4u8,
        73u8 => 0xa4u8,
        74u8 => 0x5cu8,
        75u8 => 0xccu8,
        76u8 => 0x5du8,
        77u8 => 0x65u8,
        78u8 => 0xb6u8,
        79u8 => 0x92u8,
        80u8 => 0x6cu8,
        81u8 => 0x70u8,
        82u8 => 0x48u8,
        83u8 => 0x50u8,
        84u8 => 0xfdu8,
        85u8 => 0xedu8,
        86u8 => 0xb9u8,
        87u8 => 0xdau8,
        88u8 => 0x5eu8,
        89u8 => 0x15u8,
        90u8 => 0x46u8,
        91u8 => 0x57u8,
        92u8 => 0xa7u8,
        93u8 => 0x8du8,
        94u8 => 0x9du8,
        95u8 => 0x84u8,
        96u8 => 0x90u8,
        97u8 => 0xd8u8,
        98u8 => 0xabu8,
        99u8 => 0x00u8,
        100u8 => 0x8cu8,
        101u8 => 0xbcu8,
        102u8 => 0xd3u8,
        103u8 => 0x0au8,
        104u8 => 0xf7u8,
        105u8 => 0xe4u8,
        106u8 => 0x58u8,
        107u8 => 0x05u8,
        108u8 => 0xb8u8,
        109u8 => 0xb3u8,
        110u8 => 0x45u8,
        111u8 => 0x06u8,
        112u8 => 0xd0u8,
        113u8 => 0x2cu8,
        114u8 => 0x1eu8,
        115u8 => 0x8fu8,
        116u8 => 0xcau8,
        117u8 => 0x3fu8,
        118u8 => 0x0fu8,
        119u8 => 0x02u8,
        120u8 => 0xc1u8,
        121u8 => 0xafu8,
        122u8 => 0xbdu8,
        123u8 => 0x03u8,
        124u8 => 0x01u8,
        125u8 => 0x13u8,
        126u8 => 0x8au8,
        127u8 => 0x6bu8,
        128u8 => 0x3au8,
        129u8 => 0x91u8,
        130u8 => 0x11u8,
        131u8 => 0x41u8,
        132u8 => 0x4fu8,
        133u8 => 0x67u8,
        134u8 => 0xdcu8,
        135u8 => 0xeau8,
        136u8 => 0x97u8,
        137u8 => 0xf2u8,
        138u8 => 0xcfu8,
        139u8 => 0xceu8,
        140u8 => 0xf0u8,
        141u8 => 0xb4u8,
        142u8 => 0xe6u8,
        143u8 => 0x73u8,
        144u8 => 0x96u8,
        145u8 => 0xacu8,
        146u8 => 0x74u8,
        147u8 => 0x22u8,
        148u8 => 0xe7u8,
        149u8 => 0xadu8,
        150u8 => 0x35u8,
        151u8 => 0x85u8,
        152u8 => 0xe2u8,
        153u8 => 0xf9u8,
        154u8 => 0x37u8,
        155u8 => 0xe8u8,
        156u8 => 0x1cu8,
        157u8 => 0x75u8,
        158u8 => 0xdfu8,
        159u8 => 0x6eu8,
        160u8 => 0x47u8,
        161u8 => 0xf1u8,
        162u8 => 0x1au8,
        163u8 => 0x71u8,
        164u8 => 0x1du8,
        165u8 => 0x29u8,
        166u8 => 0xc5u8,
        167u8 => 0x89u8,
        168u8 => 0x6fu8,
        169u8 => 0xb7u8,
        170u8 => 0x62u8,
        171u8 => 0x0eu8,
        172u8 => 0xaau8,
        173u8 => 0x18u8,
        174u8 => 0xbeu8,
        175u8 => 0x1bu8,
        176u8 => 0xfcu8,
        177u8 => 0x56u8,
        178u8 => 0x3eu8,
        179u8 => 0x4bu8,
        180u8 => 0xc6u8,
        181u8 => 0xd2u8,
        182u8 => 0x79u8,
        183u8 => 0x20u8,
        184u8 => 0x9au8,
        185u8 => 0xdbu8,
        186u8 => 0xc0u8,
        187u8 => 0xfeu8,
        188u8 => 0x78u8,
        189u8 => 0xcdu8,
        190u8 => 0x5au8,
        191u8 => 0xf4u8,
        192u8 => 0x1fu8,
        193u8 => 0xddu8,
        194u8 => 0xa8u8,
        195u8 => 0x33u8,
        196u8 => 0x88u8,
        197u8 => 0x07u8,
        198u8 => 0xc7u8,
        199u8 => 0x31u8,
        200u8 => 0xb1u8,
        201u8 => 0x12u8,
        202u8 => 0x10u8,
        203u8 => 0x59u8,
        204u8 => 0x27u8,
        205u8 => 0x80u8,
        206u8 => 0xecu8,
        207u8 => 0x5fu8,
        208u8 => 0x60u8,
        209u8 => 0x51u8,
        210u8 => 0x7fu8,
        211u8 => 0xa9u8,
        212u8 => 0x19u8,
        213u8 => 0xb5u8,
        214u8 => 0x4au8,
        215u8 => 0x0du8,
        216u8 => 0x2du8,
        217u8 => 0xe5u8,
        218u8 => 0x7au8,
        219u8 => 0x9fu8,
        220u8 => 0x93u8,
        221u8 => 0xc9u8,
        222u8 => 0x9cu8,
        223u8 => 0xefu8,
        224u8 => 0xa0u8,
        225u8 => 0xe0u8,
        226u8 => 0x3bu8,
        227u8 => 0x4du8,
        228u8 => 0xaeu8,
        229u8 => 0x2au8,
        230u8 => 0xf5u8,
        231u8 => 0xb0u8,
        232u8 => 0xc8u8,
        233u8 => 0xebu8,
        234u8 => 0xbbu8,
        235u8 => 0x3cu8,
        236u8 => 0x83u8,
        237u8 => 0x53u8,
        238u8 => 0x99u8,
        239u8 => 0x61u8,
        240u8 => 0x17u8,
        241u8 => 0x2bu8,
        242u8 => 0x04u8,
        243u8 => 0x7eu8,
        244u8 => 0xbau8,
        245u8 => 0x77u8,
        246u8 => 0xd6u8,
        247u8 => 0x26u8,
        248u8 => 0xe1u8,
        249u8 => 0x69u8,
        250u8 => 0x14u8,
        251u8 => 0x63u8,
        252u8 => 0x55u8,
        253u8 => 0x21u8,
        254u8 => 0x0cu8,
        255u8 => 0x7du8,
    }
}

fn xtime_exec(b: u8) -> (r: u8)
    ensures
        r == xtime(b),
{
    (b << 1) ^ (if b & 0x80 == 0x80 {
        0x1bu8
    } else {
        0u8
    })
}

fn mul9_exec(b: u8) -> (r: u8)
    ensures
        r == mul9(b),
{
    let x2 = xtime_exec(b);
    let x4 = xtime_exec(x2);
    let x8 = xtime_exec(x4);
    x8 ^ b
}

fn mul11_exec(b: u8) -> (r: u8)
    ensures
        r == mul11(b),
{
    let x2 = xtime_exec(b);
    let x4 = xtime_exec(x2);
    let x8 = xtime_exec(x4);
    x8 ^ x2 ^ b
}

fn mul13_exec(b: u8) -> (r: u8)
    ensures
        r == mul13(b),
{
    let x2 = xtime_exec(b);
    let x4 = xtime_exec(x2);
    let x8 = xtime_exec(x4);
    x8 ^ x4 ^ b
}

fn mul14_exec(b: u8) -> (r: u8)
    ensures
        r == mul14(b),
{
    let x2 = xtime_exec(b);
    let x4 = xtime_exec(x2);
    let x8 = xtime_exec(x4);
    x8 ^ x4 ^ x2
}

fn row_shift_exec(r: usize) -> (s: usize)
    requires
        r < 4,
    ensures
        s == row_shift(r as int),
{
    if r == 0 {
        0
    } else if r == 1 {
        1
    } else if r == 2 {
        3
    } else {
        4
    }
}

fn sub_bytes_exec(s: &mut [u8; 32], inverse: bool)
    ensures
        !inverse ==> final(s)@ == sub_bytes(old(s)@),
        inverse ==> final(s)@ == inv_sub_bytes(old(s)@),
{
    let mut j: usize = 0;
    while j < 32
        invariant
            0 <= j <= 32,
            forall|k: int| 0 <= k < j ==> s@[k] == if inverse {
                inv_sbox(old(s)@[k])
            } else {
                sbox(old(s)@[k])
            },
            forall|k: int| j <= k < 32 ==> s@[k] == old(s)@[k],
        decreases 32 - j,
    {
        s[j] = if inverse {
            inv_sbox_lookup(s[j])
        } else {
            sbox_lookup(s[j])
        };
        j = j + 1;
    }
    if inverse {
        assert(s@ =~= inv_sub_bytes(old(s)@));
    } else {
        assert(s@ =~= sub_bytes(old(s)@));
    }
}

fn shift_rows_exec(s: &[u8; 32], inverse: bool) -> (t: [u8; 32])
    ensures
        !inverse ==> t@ == shift_rows(s@),
        inverse ==> t@ == inv_shift_rows(s@),
{
    let mut t: [u8; 32] = [0u8; 32];
    let mut j: usize = 0;
    while j < 32
        invariant
            0 <= j <= 32,
            forall|k: int| 0 <= k < j ==> t@[k] == if inverse {
                inv_shift_rows(s@)[k]
            } else {
                shift_rows(s@)[k]
            },
        decreases 32 - j,
    {
        let r = j % 4;
        let sh = row_shift_exec(r);
        let c = if inverse {
            (j / 4 + 8 - sh) % 8
        } else {
            (j / 4 + sh) % 8
        };
        t[j] = s[r + 4 * c];
        j = j + 1;
    }
    if inverse {
        assert(t@ =~= inv_shift_rows(s@));
    } else {
        assert(t@ =~= shift_rows(s@));
    }
    t
}

fn mix_columns_exec(s: &[u8; 32], inverse: bool) -> (t: [u8; 32])
    ensures
        !inverse ==> t@ == mix_columns(s@),
        inverse ==> t@ == inv_mix_columns(s@),
{
    let mut t: [u8; 32] = [0u8; 32];
    let mut c: usize = 0;
    while c < 8
        invariant
            0 <= c <= 8,
            forall|k: int| 0 <= k < 4 * c ==> t@[k] == if inverse {
                inv_mix_columns(s@)[k]
            } else {
                mix_columns(s@)[k]
            },
        decreases 8 - c,
    {
        let a0 = s[4 * c];
        let a1 = s[4 * c + 1];
        let a2 = s[4 * c + 2];
        let a3 = s[4 * c + 3];
        if inverse {
            t[4 * c] = mul14_exec(a0) ^ mul11_exec(a1) ^ mul13_exec(a2) ^ mul9_exec(a3);
            t[4 * c + 1] = mul9_exec(a0) ^ mul14_exec(a1) ^ mul11_exec(a2) ^ mul13_exec(a3);
            t[4 * c + 2] = mul13_exec(a0) ^ mul9_exec(a1) ^ mul14_exec(a2) ^ mul11_exec(a3);
            t[4 * c + 3] = mul11_exec(a0) ^ mul13_exec(a1) ^ mul9_exec(a2) ^ mul14_exec(a3);
        } else {
            let x0 = xtime_exec(a0);
            let x1 = xtime_exec(a1);
            let x2 = xtime_exec(a2);
            let x3 = xtime_exec(a3);
            t[4 * c] = x0 ^ (x1 ^ a1) ^ a2 ^ a3;
            t[4 * c + 1] = a0 ^ x1 ^ (x2 ^ a2) ^ a3;
            t[4 * c + 2] = a0 ^ a1 ^ x2 ^ (x3 ^ a3);
            t[4 * c + 3] = (x0 ^ a0) ^ a1 ^ a2 ^ x3;
        }
        proof {
            assert forall|k: int| 4 * c <= k < 4 * c + 4 implies t@[k] == if inverse {
                inv_mix_columns(s@)[k]
            } else {
                mix_columns(s@)[k]
            } by {
                assert(k / 4 == c);
                assert(k % 4 == k - 4 * c);
            }
        }
        c = c + 1;
    }
    if inverse {
        assert(t@ =~= inv_mix_columns(s@));
    } else {
        assert(t@ =~= mix_columns(s@));
    }
    t
}

fn add_round_key_exec(s: &mut [u8; 32], ks: &[u8; 480], r: usize)
    requires
        r <= 14,
    ensures
        final(s)@ == add_round_key(old(s)@, round_key(ks@, r as int)),
{
    let mut j: usize = 0;
    while j < 32
        invariant
            0 <= j <= 32,
            r <= 14,
            forall|k: int| 0 <= k < j ==> s@[k] == old(s)@[k] ^ ks@[32 * r + k],
            forall|k: int| j <= k < 32 ==> s@[k] == old(s)@[k],
        decreases 32 - j,
    {
        s[j] = s[j] ^ ks[32 * r + j];
        j = j + 1;
    }
    assert(s@ =~= add_round_key(old(s)@, round_key(ks@, r as int)));
}

/// Expands a 32-byte key into the fourteen-round key schedule.
fn expand_key(key: &[u8; 32]) -> (w: [u8; 480])
    ensures
        w@ == key_schedule(key@),
{
    let mut w: [u8; 480] = [0u8; 480];
    let mut j: usize = 0;
    while j < 32
        invariant
            0 <= j <= 32,
            forall|k: int| 0 <= k < j ==> #[trigger] w@[k] == key_byte(key@, (k / 4) as nat, k % 4),
        decreases 32 - j,
    {
        w[j] = key[j];
        assert(j == 4 * (j / 4) + j % 4);
        j = j + 1;
    }
    let mut rc: u8 = 1;
    let mut i: usize = 8;
    while i < 120
        invariant
            8 <= i <= 120,
            rc == rcon(((i + 7) / 8) as nat),
            forall|k: int| 0 <= k < 4 * i ==> #[trigger] w@[k] == key_byte(key@, (k / 4) as nat, k % 4),
        decreases 120 - i,
    {
        let p = 4 * (i - 1);
        let q = 4 * (i - 8);
        let ghost ii = i as nat;
        let mut t0 = w[p];
        let mut t1 = w[p + 1];
        let mut t2 = w[p + 2];
        let mut t3 = w[p + 3];
        let s0 = w[q];
        let s1 = w[q + 1];
        let s2 = w[q + 2];
        let s3 = w[q + 3];
        assert(t0 == key_byte(key@, (ii - 1) as nat, 0));
        assert(t1 == key_byte(key@, (ii - 1) as nat, 1));
        assert(t2 == key_byte(key@, (ii - 1) as nat, 2));
        assert(t3 == key_byte(key@, (ii - 1) as nat, 3));
        assert(s0 == key_byte(key@, (ii - 8) as nat, 0));
        assert(s1 == key_byte(key@, (ii - 8) as nat, 1));
        assert(s2 == key_byte(key@, (ii - 8) as nat, 2));
        assert(s3 == key_byte(key@, (ii - 8) as nat, 3));
        if i % 8 == 0 {
            let u0 = sbox_lookup(t1) ^ rc;
            let u1 = sbox_lookup(t2);
            let u2 = sbox_lookup(t3);
            let u3 = sbox_lookup(t0);
            t0 = u0;
            t1 = u1;
            t2 = u2;
            t3 = u3;
            assert((i + 7) / 8 == i / 8);
            rc = xtime_exec(rc);
        } else if i % 8 == 4 {
            t0 = sbox_lookup(t0);
            t1 = sbox_lookup(t1);
            t2 = sbox_lookup(t2);
            t3 = sbox_lookup(t3);
        }
        assert(t0 == schedule_temp(key@, ii, 0));
        assert(t1 == schedule_temp(key@, ii, 1));
        assert(t2 == schedule_temp(key@, ii, 2));
        assert(t3 == schedule_temp(key@, ii, 3));
        w[4 * i] = s0 ^ t0;
        w[4 * i + 1] = s1 ^ t1;
        w[4 * i + 2] = s2 ^ t2;
        w[4 * i + 3] = s3 ^ t3;
        assert(w@[4 * i] == key_byte(key@, ii, 0));
        assert(w@[4 * i + 1] == key_byte(key@, ii, 1));
        assert(w@[4 * i + 2] == key_byte(key@, ii, 2));
        assert(w@[4 * i + 3] == key_byte(key@, ii, 3));
        i = i + 1;
    }
    assert(w@ =~= key_schedule(key@));
    w
}

/// Encrypts `block` in place under `key`.
pub fn ic256_enc(block: &mut [u8; 32], key: &[u8; 32])
    ensures
        final(block)@ == ic_enc_spec(old(block)@, key@),
{
    let ks = expand_key(key);
    let ghost b = block@;
    let mut s: [u8; 32] = *block;
    add_round_key_exec(&mut s, &ks, 0);
    let mut r: usize = 1;
    while r < 14
        invariant
            1 <= r <= 14,
            ks@ == key_schedule(key@),
            s@ == enc_upto(b, ks@, (r - 1) as nat),
        decreases 14 - r,
    {
        sub_bytes_exec(&mut s, false);
        let t = shift_rows_exec(&s, false);
        s = mix_columns_exec(&t, false);
        add_round_key_exec(&mut s, &ks, r);
        r = r + 1;
    }
    sub_bytes_exec(&mut s, false);
    s = shift_rows_exec(&s, false);
    add_round_key_exec(&mut s, &ks, 14);
    *block = s;
}

/// Decrypts `enc_block` in place under `key`.
pub fn ic256_dec(enc_block: &mut [u8; 32], key: &[u8; 32])
    ensures
        final(enc_block)@ == ic_dec_spec(old(enc_block)@, key@),
{
    let ks = expand_key(key);
    let mut s: [u8; 32] = *enc_block;
    add_round_key_exec(&mut s, &ks, 14);
    s = shift_rows_exec(&s, true);
    sub_bytes_exec(&mut s, true);
    let ghost start = s@;
    let mut r: usize = 13;
    while r > 0
        invariant
            0 <= r <= 13,
            ks@ == key_schedule(key@),
            undo_upto(start, ks@, 13) == undo_upto(s@, ks@, r as nat),
        decreases r,
    {
        add_round_key_exec(&mut s, &ks, r);
        s = mix_columns_exec(&s, true);
        s = shift_rows_exec(&s, true);
        sub_bytes_exec(&mut s, true);
        r = r - 1;
    }
    add_round_key_exec(&mut s, &ks, 0);
    *enc_block = s;
}

} // verus!
