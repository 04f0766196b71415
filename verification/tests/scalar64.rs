use lib::scalar64::{
    add, barrett_reduce256_modm, from_bytes, load8, lt_modm, mul, mul128, muladd, reduce,
    reduce256_modm, shr128, to_bytes,
};

// A small deterministic byte generator (xorshift64*) for repeatable
// pseudo-random scalars.
fn generator_bytes(state: &mut u64) -> [u8; 32] {
    let mut out = [0u8; 32];
    for chunk in 0..4 {
        let mut x = *state;
        x ^= x >> 12;
        x ^= x << 25;
        x ^= x >> 27;
        *state = x;
        let v = x.wrapping_mul(0x2545F4914F6CDD1D);
        out[chunk * 8..chunk * 8 + 8].copy_from_slice(&v.to_le_bytes());
    }
    out
}

fn next_scalar(state: &mut u64) -> [u64; 5] {
    let mut bytes = generator_bytes(state);
    bytes[31] &= 0x0f; // 2^252 max for simplicity
    from_bytes(&bytes)
}

fn scalars(seed: u64, n: usize) -> Vec<[u64; 5]> {
    let mut state = seed.wrapping_add(0x9E3779B97F4A7C15);
    (0..n).map(|_| next_scalar(&mut state)).collect()
}

fn scalar_pairs(seed: u64, n: usize) -> Vec<([u64; 5], [u64; 5])> {
    let mut state = seed.wrapping_add(0x9E3779B97F4A7C15);
    (0..n).map(|_| (next_scalar(&mut state), next_scalar(&mut state))).collect()
}

const L_BYTES: [u8; 32] = [
    237, 211, 245, 92, 26, 99, 18, 88, 214, 156, 247, 162, 222, 249, 222, 20, 0, 0, 0, 0, 0, 0, 0,
    0, 0, 0, 0, 0, 0, 0, 0, 16,
];
const L_LIMBS: [u64; 5] = [0x12631a5cf5d3ed, 0xf9dea2f79cd658, 0x14de, 0x0, 0x10000000];
const L_MINUS_1_LIMBS: [u64; 5] = [0x12631a5cf5d3ec, 0xf9dea2f79cd658, 0x14de, 0x0, 0x10000000];
const L_MINUS_2_LIMBS: [u64; 5] = [0x12631a5cf5d3eb, 0xf9dea2f79cd658, 0x14de, 0x0, 0x10000000];
const TWO_L_LIMBS: [u64; 5] = [0x24c634b9eba7da, 0xf3bd45ef39acb0, 0x29bd, 0x0, 0x20000000];
const TWO_L_BYTES: [u8; 32] = [
    218, 167, 235, 185, 52, 198, 36, 176, 172, 57, 239, 69, 189, 243, 189, 41, 0, 0, 0, 0, 0, 0, 0,
    0, 0, 0, 0, 0, 0, 0, 0, 32,
];

fn small(v: u64) -> [u64; 5] {
    [v, 0, 0, 0, 0]
}

fn small_bytes(v: u8) -> [u8; 32] {
    let mut b = [0u8; 32];
    b[0] = v;
    b
}

#[test]
fn serialization() {
    for scalar in scalars(0, 100) {
        let after_serialization = from_bytes(&to_bytes(&scalar));
        assert_eq!(scalar, after_serialization);
    }
}

#[test]
fn add_iv() {
    struct Iv {
        a: [u8; 32],
        b: [u8; 32],
        r: [u8; 32],
    }

    let ivs = [Iv {
        a: [
            0, 0, 0, 0, 0, 0, 0, 0, 0, 0, 0, 0, 0, 0, 0, 0, 0, 0, 0, 0, 0, 0, 0, 0, 0, 0, 0, 0, 0, 0,
            0, 0,
        ],
        b: [
            1, 2, 3, 4, 5, 6, 7, 8, 9, 10, 12, 13, 15, 16, 0, 0, 0, 0, 0, 0, 0, 0, 0, 0, 0, 0, 0, 0,
            0, 0, 0, 0,
        ],
        r: [
            1, 2, 3, 4, 5, 6, 7, 8, 9, 10, 12, 13, 15, 16, 0, 0, 0, 0, 0, 0, 0, 0, 0, 0, 0, 0, 0, 0,
            0, 0, 0, 0,
        ],
    }];

    for (i, iv) in ivs.iter().enumerate() {
        let a = from_bytes(&iv.a);
        let b = from_bytes(&iv.b);
        let r = add(&a, &b);
        assert_eq!(to_bytes(&r), iv.r, "iv test {} failed", i);
    }
}

#[test]
fn add_commutes() {
    for (x, y) in scalar_pairs(0, 100) {
        assert_eq!(add(&x, &y), add(&y, &x));
    }
}

#[test]
fn mul_commutes() {
    for (x, y) in scalar_pairs(0, 100) {
        assert_eq!(mul(&x, &y), mul(&y, &x));
    }
}

#[test]
fn reduction() {
    assert_eq!(reduce(&[0; 64]), [0; 32]);
    assert_eq!(
        reduce(&[
            1, 0, 0, 0, 0, 0, 0, 0, 0, 0, 0, 0, 0, 0, 0, 0, 0, 0, 0, 0, 0, 0, 0, 0, 0, 0, 0, 0, 0,
            0, 0, 0, 0, 0, 0, 0, 0, 0, 0, 0, 0, 0, 0, 0, 0, 0, 0, 0, 0, 0, 0, 0, 0, 0, 0, 0, 0, 0,
            0, 0, 0, 0, 0, 0,
        ]),
        [
            1, 0, 0, 0, 0, 0, 0, 0, 0, 0, 0, 0, 0, 0, 0, 0, 0, 0, 0, 0, 0, 0, 0, 0, 0, 0, 0, 0, 0,
            0, 0, 0,
        ]
    );

    assert_eq!(
        reduce(&[
            30, 1, 102, 252, 230, 223, 126, 62, 154, 62, 25, 173, 159, 16, 157, 227, 21, 140, 223,
            132, 84, 209, 86, 118, 35, 85, 26, 144, 12, 4, 76, 170, 93, 151, 77, 147, 32, 213, 10,
            135, 235, 26, 71, 94, 108, 45, 193, 229, 106, 233, 198, 109, 246, 81, 108, 91, 63, 108,
            220, 6, 119, 115, 9, 117
        ]),
        [
            4, 135, 152, 112, 4, 206, 189, 109, 105, 80, 162, 79, 191, 218, 37, 85, 225, 159, 163,
            149, 143, 3, 101, 222, 2, 81, 255, 223, 235, 242, 30, 12
        ]
    )
}

#[test]
fn lt_modm_is_top_bit_of_difference() {
    assert_eq!(lt_modm(1, 2), 1);
    assert_eq!(lt_modm(2, 1), 0);
    assert_eq!(lt_modm(5, 5), 0);
    assert_eq!(lt_modm(0, 1 << 63), 1);
    // beyond 2^63 the result is the top bit of the wrapping difference
    assert_eq!(lt_modm((1 << 63) + 1, 0), 1);
}

#[test]
fn mul128_and_shr128_values() {
    assert_eq!(mul128(u64::MAX, u64::MAX), (u64::MAX as u128) * (u64::MAX as u128));
    assert_eq!(mul128(0x100000000000000, 0x100), 1u128 << 64);
    assert_eq!(shr128(1u128 << 100, 56), 1u64 << 44);
    assert_eq!(shr128(u128::MAX, 0), u64::MAX);
    assert_eq!(shr128(u128::MAX, 56), u64::MAX);
}

#[test]
fn load8_is_little_endian() {
    let bytes: [u8; 32] = [
        0, 1, 2, 3, 4, 5, 6, 7, 8, 9, 10, 11, 12, 13, 14, 15, 16, 17, 18, 19, 20, 21, 22, 23, 24,
        25, 26, 27, 28, 29, 30, 31,
    ];
    assert_eq!(load8(&bytes, 0), 0x0706050403020100);
    assert_eq!(load8(&bytes, 24), 0x1f1e1d1c1b1a1918);
    assert_eq!(load8(&bytes, 3), 0x0a09080706050403);
}

#[test]
fn from_bytes_of_the_order() {
    assert_eq!(from_bytes(&L_BYTES), L_LIMBS);
    assert_eq!(from_bytes(&[0xff; 32]), [
        0xffffffffffffff,
        0xffffffffffffff,
        0xffffffffffffff,
        0xffffffffffffff,
        0xffffffff
    ]);
}

#[test]
fn to_bytes_values() {
    assert_eq!(to_bytes(&L_LIMBS), L_BYTES);
    // 2^256 does not fit in 32 bytes: the stored value is taken modulo 2^256
    assert_eq!(to_bytes(&[0, 0, 0, 0, 1 << 32]), [0u8; 32]);
    assert_eq!(to_bytes(&[5, 0, 0, 0, (1 << 32) + 1]), {
        let mut b = [0u8; 32];
        b[0] = 5;
        b[28] = 1;
        b
    });
}

#[test]
fn bytes_round_trip() {
    let mut state = 0x1234u64;
    for _ in 0..100 {
        let b = generator_bytes(&mut state);
        assert_eq!(to_bytes(&from_bytes(&b)), b);
    }
}

#[test]
fn reduce256_subtracts_the_order_once() {
    let mut r = L_LIMBS;
    reduce256_modm(&mut r);
    assert_eq!(r, [0; 5]);
    let mut r = L_MINUS_1_LIMBS;
    reduce256_modm(&mut r);
    assert_eq!(r, L_MINUS_1_LIMBS);
    let mut r = TWO_L_LIMBS;
    reduce256_modm(&mut r);
    assert_eq!(r, L_LIMBS);
}

#[test]
fn barrett_reduces_two_to_the_256() {
    // x = 2^256: bits from 248 on are 2^8, the low 264 bits are 2^256
    let q1 = [0x100, 0, 0, 0, 0];
    let r1 = [0, 0, 0, 0, 1 << 32];
    let mut out = [0u64; 5];
    barrett_reduce256_modm(&mut out, &q1, &r1);
    assert_eq!(out, [0xec31748d98951d, 0x5bf4737dcf70d6, 0xfffffffffec6ef, 0xffffffffffffff, 0xfffffff]);
}

#[test]
fn add_wraps_at_the_order() {
    assert_eq!(add(&L_MINUS_1_LIMBS, &small(1)), [0; 5]);
    assert_eq!(add(&L_MINUS_1_LIMBS, &L_MINUS_1_LIMBS), L_MINUS_2_LIMBS);
    assert_eq!(add(&small(2), &small(3)), small(5));
    // only one subtraction of l: an operand of 2l is not fully reduced
    assert_eq!(add(&small(0), &TWO_L_LIMBS), L_LIMBS);
}

#[test]
fn mul_values() {
    assert_eq!(mul(&small(2), &small(3)), small(6));
    assert_eq!(mul(&L_MINUS_1_LIMBS, &L_MINUS_1_LIMBS), small(1));
    assert_eq!(mul(&L_LIMBS, &small(12345)), [0; 5]);
    let two_255 = [0, 0, 0, 0, 0x80000000];
    assert_eq!(to_bytes(&mul(&two_255, &two_255)), [
        178, 98, 223, 150, 204, 78, 15, 171, 114, 26, 91, 212, 80, 194, 170, 131, 153, 111, 253,
        133, 244, 28, 187, 115, 143, 38, 12, 223, 70, 80, 230, 12
    ]);
}

#[test]
fn reduce_values() {
    let mut l_wide = [0u8; 64];
    l_wide[..32].copy_from_slice(&L_BYTES);
    assert_eq!(reduce(&l_wide), [0; 32]);
    assert_eq!(reduce(&[0xff; 64]), [
        0, 15, 156, 68, 227, 17, 6, 164, 71, 147, 133, 104, 167, 27, 14, 208, 101, 190, 245, 23,
        210, 115, 236, 206, 61, 154, 48, 124, 27, 65, 153, 3
    ]);
    assert_eq!(reduce(&[
        38, 74, 173, 108, 182, 221, 33, 15, 175, 148, 172, 211, 207, 146, 193, 144, 35, 124, 177,
        31, 93, 16, 140, 242, 89, 48, 38, 57, 56, 179, 112, 161, 181, 118, 159, 160, 241, 72, 63,
        149, 169, 13, 157, 242, 241, 48, 214, 15, 207, 4, 189, 147, 245, 10, 230, 149, 20, 218,
        140, 101, 156, 226, 177, 12
    ]), [
        227, 204, 41, 254, 65, 116, 243, 219, 71, 186, 67, 54, 94, 184, 172, 0, 20, 6, 167, 246,
        98, 94, 146, 202, 179, 20, 244, 60, 253, 209, 54, 6
    ]);
}

#[test]
fn muladd_values() {
    let mut s = [0u8; 32];
    muladd(&mut s, &small_bytes(2), &small_bytes(3), &small_bytes(4));
    assert_eq!(s, small_bytes(10));

    let a = [
        56, 180, 230, 82, 228, 77, 167, 242, 55, 13, 158, 38, 14, 39, 19, 101, 80, 164, 163, 166,
        208, 127, 92, 12, 51, 47, 139, 18, 36, 8, 63, 210,
    ];
    let b = [
        43, 144, 47, 137, 17, 232, 24, 24, 248, 201, 157, 93, 93, 152, 49, 149, 117, 4, 217, 14,
        148, 93, 226, 232, 245, 78, 231, 129, 204, 117, 246, 54,
    ];
    let c = [
        216, 80, 153, 9, 90, 163, 0, 22, 90, 103, 3, 111, 155, 84, 13, 107, 143, 11, 226, 17, 36,
        23, 156, 61, 217, 247, 56, 23, 236, 22, 209, 8,
    ];
    muladd(&mut s, &a, &b, &c);
    assert_eq!(s, [
        137, 123, 100, 129, 138, 163, 77, 109, 48, 253, 90, 50, 191, 159, 55, 120, 48, 213, 214,
        85, 156, 15, 16, 71, 236, 168, 248, 10, 107, 12, 238, 10
    ]);

    // c = 2l reduces to 0
    muladd(&mut s, &small_bytes(0), &small_bytes(0), &TWO_L_BYTES);
    assert_eq!(s, [0u8; 32]);

    // c = 2^256 - 1 is reduced modulo l as well
    muladd(&mut s, &small_bytes(0), &small_bytes(0), &[0xff; 32]);
    assert_eq!(s, [
        28, 149, 152, 141, 116, 49, 236, 214, 112, 207, 125, 115, 244, 91, 239, 198, 254, 255, 255,
        255, 255, 255, 255, 255, 255, 255, 255, 255, 255, 255, 255, 15
    ]);
}
