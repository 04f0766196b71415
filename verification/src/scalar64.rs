//! Scalars modulo l in five 56-bit limbs: loading and storing bytes,
//! addition, multiplication and Barrett reduction.
use vstd::prelude::*;
use crate::barrett::{lemma_borrow_chain, lemma_barrett_difference, lemma_quotient_estimate, lemma_product_low};
use crate::product::lemma_product_split;
use crate::lemmas::{lemma_masked_select, lemma_shift_constants, lemma_limb_from_words_8, lemma_limb_from_words_16, lemma_limb_from_words_24, lemma_limb_from_words_32, lemma_le_bytes_64, lemma_value_of_limbs, lemma_limbs_of_value, lemma_le_bytes_32, lemma_word_bytes};
use crate::laws::{law_mul_accepts_loaded, law_muladd_is_modular};
use crate::specs::{barrett_input, group_order, limbs_value, limbs_normalized, limbs_256, limbs_of, sub_order_once, le_bytes, le_word};

verus! {

// The group order l in radix 2^56.
const M0: u64 = 0x12631a5cf5d3ed;
const M1: u64 = 0xf9dea2f79cd658;
const M2: u64 = 0x000000000014de;
const M3: u64 = 0x00000000000000;
const M4: u64 = 0x00000010000000;

// floor(2^512 / l) in radix 2^56.
const MU0: u64 = 0x9ce5a30a2c131b;
const MU1: u64 = 0x215d086329a7ed;
const MU2: u64 = 0xffffffffeb2106;
const MU3: u64 = 0xffffffffffffff;
const MU4: u64 = 0x00000fffffffff;

const MASK16: u64 = 0x0000_0000_0000_ffff;
const MASK40: u64 = 0x0000_00ff_ffff_ffff;
const MASK56: u64 = 0x00ff_ffff_ffff_ffff;

/// `1` when `a < b` (for operands below 2^63): the top bit of the
/// wrapping difference `a - b`.
pub fn lt_modm(a: u64, b: u64) -> (r: u64)
    ensures
        r == (if a >= b {
            (a - b) / 0x8000000000000000int
        } else {
            (a - b + 0x10000000000000000int) / 0x8000000000000000int
        }),
        a < 0x8000000000000000 && b < 0x8000000000000000 ==> r == (if a < b { 1u64 } else { 0u64 }),
{
    let d = a.wrapping_sub(b);
    proof {
        assert(d >> 63 == d / 0x8000000000000000) by (bit_vector);
    }
    d >> 63
}

/// Subtracts the group order once when the limbs hold a value of at least l.
pub fn reduce256_modm(r: &mut [u64; 5])
    requires
        limbs_normalized(*old(r)),
        old(r)[4] < 0x8000000000000000,
    ensures
        *final(r) == limbs_of(sub_order_once(limbs_value(*old(r)))),
{
    let r0 = r[0];
    let r1 = r[1];
    let r2 = r[2];
    let r3 = r[3];
    let r4 = r[4];
    proof {
        lemma_shift_constants();
    }
    // t = r - m
    let mut pb: u64 = 0;
    pb += M0; let b0 = lt_modm(r0, pb); let t0 = r0.wrapping_sub(pb).wrapping_add(b0 << 56); pb = b0;
    pb += M1; let b1 = lt_modm(r1, pb); let t1 = r1.wrapping_sub(pb).wrapping_add(b1 << 56); pb = b1;
    pb += M2; let b2 = lt_modm(r2, pb); let t2 = r2.wrapping_sub(pb).wrapping_add(b2 << 56); pb = b2;
    pb += M3; let b3 = lt_modm(r3, pb); let t3 = r3.wrapping_sub(pb).wrapping_add(b3 << 56); pb = b3;
    pb += M4; let b = lt_modm(r4, pb); let t4 = r4.wrapping_sub(pb).wrapping_add(b << 32);

    // keep r if r was smaller than m
    let mask = b.wrapping_sub(1);
    proof {
        lemma_masked_select(mask, r0, t0);
        lemma_masked_select(mask, r1, t1);
        lemma_masked_select(mask, r2, t2);
        lemma_masked_select(mask, r3, t3);
        lemma_masked_select(mask, r4, t4);
    }
    r[0] = r0 ^ (mask & (r0 ^ t0));
    r[1] = r1 ^ (mask & (r1 ^ t1));
    r[2] = r2 ^ (mask & (r2 ^ t2));
    r[3] = r3 ^ (mask & (r3 ^ t3));
    r[4] = r4 ^ (mask & (r4 ^ t4));
    proof {
        let t = [t0, t1, t2, t3, t4];
        assert(limbs_value(t) + group_order() == limbs_value(*old(r))
            + b * 0x10000000000000000000000000000000000000000000000000000000000000000int);
        if b == 0 {
            lemma_limbs_of_value(t);
            assert(*r =~= t);
        } else {
            lemma_limbs_of_value(*old(r));
            assert(*r =~= *old(r));
        }
    }
}

/// The full 128-bit product of two 64-bit words.
pub fn mul128(a: u64, b: u64) -> (r: u128)
    ensures
        r == a as nat * b as nat,
        a < 0x100000000000000 && b < 0x100000000000000 ==> r < 0x10000000000000000000000000000,
{
    proof {
        vstd::arithmetic::mul::lemma_mul_upper_bound(a as int, 0xffffffffffffffff, b as int, 0xffffffffffffffff);
        if a < 0x100000000000000 && b < 0x100000000000000 {
            vstd::arithmetic::mul::lemma_mul_upper_bound(a as int, 0xffffffffffffff, b as int, 0xffffffffffffff);
        }
    }
    a as u128 * b as u128
}

/// The low 64 bits of `value >> shift`.
pub fn shr128(value: u128, shift: usize) -> (r: u64)
    requires
        shift < 128,
    ensures
        r == (value >> shift) as u64,
{
    (value >> shift) as u64
}

/// The little-endian 64-bit word at `bytes[ofs..ofs + 8]`.
pub fn load8<const N: usize>(bytes: &[u8; N], ofs: usize) -> (w: u64)
    requires
        ofs + 8 <= N,
    ensures
        w == le_word(bytes@, ofs as int),
{
    let b0 = bytes[ofs];
    let b1 = bytes[ofs + 1];
    let b2 = bytes[ofs + 2];
    let b3 = bytes[ofs + 3];
    let b4 = bytes[ofs + 4];
    let b5 = bytes[ofs + 5];
    let b6 = bytes[ofs + 6];
    let b7 = bytes[ofs + 7];
    proof {
        assert((b0 as u64) | ((b1 as u64) << 8) | ((b2 as u64) << 16) | ((b3 as u64) << 24) | ((
        b4 as u64) << 32) | ((b5 as u64) << 40) | ((b6 as u64) << 48) | ((b7 as u64) << 56)
            == (b0 as u64) + (b1 as u64) * 0x100 + (b2 as u64) * 0x10000 + (b3 as u64) * 0x1000000
            + (b4 as u64) * 0x100000000 + (b5 as u64) * 0x10000000000 + (b6 as u64)
            * 0x1000000000000 + (b7 as u64) * 0x100000000000000) by (bit_vector);
    }
    (b0 as u64) | ((b1 as u64) << 8) | ((b2 as u64) << 16) | ((b3 as u64) << 24) | ((b4 as u64)
        << 32) | ((b5 as u64) << 40) | ((b6 as u64) << 48) | ((b7 as u64) << 56)
}

/// Writes the eight little-endian bytes of `v` at `out[ofs..ofs + 8]`.
fn write8(out: &mut [u8; 32], ofs: usize, v: u64)
    requires
        ofs + 8 <= 32,
    ensures
        le_word(final(out)@, ofs as int) == v,
        forall|i: int| 0 <= i < 32 && !(ofs <= i < ofs + 8) ==> final(out)[i] == old(out)[i],
{
    out[ofs] = v as u8;
    out[ofs + 1] = (v >> 8) as u8;
    out[ofs + 2] = (v >> 16) as u8;
    out[ofs + 3] = (v >> 24) as u8;
    out[ofs + 4] = (v >> 32) as u8;
    out[ofs + 5] = (v >> 40) as u8;
    out[ofs + 6] = (v >> 48) as u8;
    out[ofs + 7] = (v >> 56) as u8;
    proof {
        lemma_word_bytes(v);
    }
}

/// Loads a 32-byte little-endian scalar into five 56-bit limbs.
pub fn from_bytes(bytes: &[u8; 32]) -> (r: [u64; 5])
    ensures
        r == limbs_of(le_bytes(bytes@)),
        limbs_value(r) == le_bytes(bytes@),
        limbs_256(r),
{
    let x0 = load8(bytes, 0);
    let x1 = load8(bytes, 8);
    let x2 = load8(bytes, 16);
    let x3 = load8(bytes, 24);

    let out0 = x0 & MASK56;
    let out1 = (x0 >> 56 | x1 << 8) & MASK56;
    let out2 = (x1 >> 48 | x2 << 16) & MASK56;
    let out3 = (x2 >> 40 | x3 << 24) & MASK56;
    let out4 = x3 >> 32;
    proof {
        lemma_le_bytes_32(bytes@);
        lemma_limb_from_words_8(x0, x1);
        lemma_limb_from_words_16(x1, x2);
        lemma_limb_from_words_24(x2, x3);
        lemma_limbs_of_value([out0, out1, out2, out3, out4]);
    }
    [out0, out1, out2, out3, out4]
}

/// Stores the limbs as 32 little-endian bytes; the value is taken modulo 2^256.
pub fn to_bytes(limbs: &[u64; 5]) -> (out: [u8; 32])
    requires
        limbs_normalized(*limbs),
    ensures
        le_bytes(out@) == limbs_value(*limbs) as int % 0x10000000000000000000000000000000000000000000000000000000000000000int,
{
    let l0 = limbs[0];
    let l1 = limbs[1];
    let l2 = limbs[2];
    let l3 = limbs[3];
    let l4 = limbs[4];
    // contract limbs into saturated limbs
    let c0 = l1 << 56 | l0;
    let c1 = l2 << 48 | l1 >> 8;
    let c2 = l3 << 40 | l2 >> 16;
    let c3 = l4 << 32 | l3 >> 24;

    // write saturated limbs into little endian bytes
    let mut out = [0u8; 32];
    write8(&mut out, 0, c0);
    write8(&mut out, 8, c1);
    write8(&mut out, 16, c2);
    write8(&mut out, 24, c3);
    proof {
        lemma_le_bytes_32(out@);
        assert(l0 < 0x100000000000000 && l1 < 0x100000000000000 && l2 < 0x100000000000000 && l3
            < 0x100000000000000 ==> {
            &&& l1 << 56 | l0 == l0 + (l1 & 0xff) * 0x100000000000000
            &&& l2 << 48 | l1 >> 8 == (l1 >> 8) + (l2 & 0xffff) * 0x1000000000000
            &&& l3 << 40 | l2 >> 16 == (l2 >> 16) + (l3 & 0xffffff) * 0x10000000000
            &&& l4 << 32 | l3 >> 24 == (l3 >> 24) + (l4 & 0xffffffff) * 0x100000000
            &&& l1 == (l1 & 0xff) + (l1 >> 8) * 0x100
            &&& l2 == (l2 & 0xffff) + (l2 >> 16) * 0x10000
            &&& l3 == (l3 & 0xffffff) + (l3 >> 24) * 0x1000000
            &&& l4 == (l4 & 0xffffffff) + (l4 >> 32) * 0x100000000
        }) by (bit_vector);
        let c = c0 + c1 * 0x10000000000000000int + c2 * 0x100000000000000000000000000000000int
            + c3 * 0x1000000000000000000000000000000000000000000000000int;
        vstd::arithmetic::div_mod::lemma_fundamental_div_mod_converse(
            limbs_value(*limbs) as int,
            0x10000000000000000000000000000000000000000000000000000000000000000int,
            (l4 >> 32) as int,
            c,
        );
    }
    out
}

/// Barrett reduction of a number below 2^512 modulo l: `q1` holds its bits
/// from 248 on, `r1` its low 264 bits.
#[verifier::rlimit(100)]
pub fn barrett_reduce256_modm(out: &mut [u64; 5], q1: &[u64; 5], r1: &[u64; 5])
    requires
        limbs_normalized(*q1),
        q1[4] < 0x10000000000,
        limbs_normalized(*r1),
        r1[4] < 0x10000000000,
        r1[4] as int / 0x1000000 == q1[0] as int % 0x10000,
    ensures
        *final(out) == limbs_of(barrett_input(*q1, *r1) % group_order()),
{
    let mut r2 = [0u64; 5];
    let mut q3 = [0u64; 5];
    let mut c: u128;
    let mut mul: u128;
    let mut f: u64;
    let mut b: u64;
    let mut pb: u64;

    // q1 = x >> 248 = 264 bits = 5 56 bit elements
    // q2 = mu * q1
    // q3 = (q2 / 256(32+1)) = q2 / (2^8)^(32+1) = q2 >> 264

    c = mul128(MU0, q1[3]); mul = mul128(MU3, q1[0]); c += mul; mul = mul128(MU1, q1[2]); c += mul; mul = mul128(MU2, q1[1]); c += mul;
    let ghost c3 = c;
    f = shr128(c, 56);
    c = mul128(MU0, q1[4]); c += f as u128; mul = mul128(MU4, q1[0]); c += mul; mul = mul128(MU3, q1[1]); c += mul; mul = mul128(MU1, q1[3]); c += mul; mul = mul128(MU2, q1[2]); c += mul;
    let ghost c4 = c;
    f = c as u64; q3[0] = (f >> 40) & MASK16; f = shr128(c, 56);
    c = mul128(MU4, q1[1]); c += f as u128; mul = mul128(MU1, q1[4]); c += mul; mul = mul128(MU2, q1[3]); c += mul; mul = mul128(MU3, q1[2]); c += mul;
    let ghost c5 = c;
    f = c as u64; q3[0] = q3[0] | ((f << 16) & MASK56); q3[1] = (f >> 40) & MASK16; f = shr128(c, 56);
    c = mul128(MU4, q1[2]); c += f as u128; mul = mul128(MU2, q1[4]); c += mul; mul = mul128(MU3, q1[3]); c += mul;
    let ghost c6 = c;
    f = c as u64; q3[1] = q3[1] | ((f << 16) & MASK56); q3[2] = (f >> 40) & MASK16; f = shr128(c, 56);
    c = mul128(MU4, q1[3]); c += f as u128; mul = mul128(MU3, q1[4]); c += mul;
    let ghost c7 = c;
    f = c as u64; q3[2] = q3[2] | ((f << 16) & MASK56); q3[3] = (f >> 40) & MASK16; f = shr128(c, 56);
    c = mul128(MU4, q1[4]); c += f as u128;
    let ghost c8 = c;
    f = c as u64; q3[3] = q3[3] | ((f << 16) & MASK56); q3[4] = (f >> 40) & MASK16; f = shr128(c, 56);
    q3[4] = q3[4] | (f << 16);

    let ghost x = barrett_input(*q1, *r1) as int;
    let ghost q3v = limbs_value(q3) as int;
    proof {
        lemma_quotient_estimate(*q1, c3, c4, c5, c6, c7, c8, q3, *r1);
    }

    c = mul128(M0, q3[0]);
    let ghost d0 = c;
    r2[0] = (c as u64) & MASK56;  f = shr128(c, 56);
    c = mul128(M0, q3[1]); c += f as u128; mul = mul128(M1, q3[0]); c += mul;
    let ghost d1 = c;
    r2[1] = (c as u64) & MASK56; f = shr128(c, 56);
    c = mul128(M0, q3[2]); c += f as u128; mul = mul128(M2, q3[0]); c += mul; mul = mul128(M1, q3[1]); c += mul;
    let ghost d2 = c;
    r2[2] = (c as u64) & MASK56; f = shr128(c, 56);
    c = mul128(M0, q3[3]); c += f as u128; mul = mul128(M3, q3[0]); c += mul; mul = mul128(M1, q3[2]); c += mul; mul = mul128(M2, q3[1]); c += mul;
    let ghost d3 = c;
    r2[3] = (c as u64) & MASK56; f = shr128(c, 56);
    c = mul128(M0, q3[4]); c += f as u128; mul = mul128(M4, q3[0]); c += mul; mul = mul128(M3, q3[1]); c += mul; mul = mul128(M1, q3[3]); c += mul; mul = mul128(M2, q3[2]); c += mul;
    let ghost d4 = c;
    r2[4] = (c as u64) & MASK40;
    let ghost mut k: int = 0;
    proof {
        k = lemma_product_low(q3, d0, d1, d2, d3, d4, r2);
        lemma_shift_constants();
    }

    // out = r1 - r2, modulo 2^264
    pb = 0;
    pb += r2[0]; b = lt_modm(r1[0], pb); out[0] = r1[0].wrapping_sub(pb).wrapping_add(b << 56); pb = b;
    let ghost b0 = b;
    assert(out[0] == r1[0] - r2[0] + b0 * 0x100000000000000int);
    pb += r2[1]; b = lt_modm(r1[1], pb); out[1] = r1[1].wrapping_sub(pb).wrapping_add(b << 56); pb = b;
    let ghost b1 = b;
    assert(out[1] == r1[1] - r2[1] - b0 + b1 * 0x100000000000000int);
    pb += r2[2]; b = lt_modm(r1[2], pb); out[2] = r1[2].wrapping_sub(pb).wrapping_add(b << 56); pb = b;
    let ghost b2 = b;
    assert(out[2] == r1[2] - r2[2] - b1 + b2 * 0x100000000000000int);
    pb += r2[3]; b = lt_modm(r1[3], pb); out[3] = r1[3].wrapping_sub(pb).wrapping_add(b << 56); pb = b;
    let ghost b3 = b;
    assert(out[3] == r1[3] - r2[3] - b2 + b3 * 0x100000000000000int);
    pb += r2[4]; b = lt_modm(r1[4], pb); out[4] = r1[4].wrapping_sub(pb).wrapping_add(b << 40);
    assert(out[4] == r1[4] - r2[4] - b3 + b * 0x10000000000int);
    proof {
        lemma_borrow_chain(*r1, r2, *out, b0 as int, b1 as int, b2 as int, b3 as int, b as int);
        lemma_barrett_difference(*q1, *r1, limbs_value(r2) as int, q3v, k, b as int, limbs_value(*out) as int);
    }
    let ghost d = limbs_value(*out);

    reduce256_modm(out);
    proof {
        lemma_value_of_limbs(sub_order_once(d));
    }
    reduce256_modm(out);
    proof {
        let l = group_order() as int;
        let e = sub_order_once(sub_order_once(d)) as int;
        let j: int = if d >= 2 * l { 2 } else if d >= l { 1 } else { 0 };
        assert(e == d - j * l && 0 <= e < l);
        vstd::arithmetic::div_mod::lemma_fundamental_div_mod_converse(x, l, q3v + j, e);
    }
}

/// Multiplies two scalars modulo l, by the schoolbook product followed by
/// Barrett reduction; the product must be below 2^512.
pub fn mul(x: &[u64; 5], y: &[u64; 5]) -> (r: [u64; 5])
    requires
        limbs_normalized(*x),
        limbs_normalized(*y),
        x[4] < 0x100000000000000,
        y[4] < 0x100000000000000,
        limbs_value(*x) * limbs_value(*y) < 0x100000000000000000000000000000000000000000000000000000000000000000000000000000000000000000000000000000000000000000000000000000000int,
    ensures
        r == limbs_of((limbs_value(*x) * limbs_value(*y)) % group_order()),
{
    let mut q1 = [0u64; 5];
    let mut r1 = [0u64; 5];

    let c = mul128( x[0], y[0]);
    let ghost c0 = c;
    let f = c as u64; r1[0] = f & MASK56; let f = shr128(c, 56);
    let c = mul128( x[0], y[1]); let c = c + (f as u128); let mul = mul128(x[1], y[0]); let c = c + mul;
    let ghost c1 = c;
    let f = c as u64; r1[1] = f & MASK56; let f = shr128(c, 56);
    let c = mul128( x[0], y[2]); let c = c + (f as u128); let mul = mul128(x[2], y[0]); let c = c + mul; let mul = mul128(x[1], y[1]); let c = c + mul;
    let ghost c2 = c;
    let f = c as u64; r1[2] = f & MASK56; let f = shr128(c, 56);
    let c = mul128( x[0], y[3]); let c = c + (f as u128); let mul = mul128(x[3], y[0]); let c = c + mul; let mul = mul128(x[1], y[2]); let c = c + mul; let mul = mul128(x[2], y[1]); let c = c + mul;
    let ghost c3 = c;
    let f = c as u64; r1[3] = f & MASK56; let f = shr128(c, 56);
    let c = mul128( x[0], y[4]); let c = c + (f as u128); let mul = mul128(x[4], y[0]); let c = c + mul; let mul = mul128(x[3], y[1]); let c = c + mul; let mul = mul128(x[1], y[3]); let c = c + mul; let mul = mul128(x[2], y[2]); let c = c + mul;
    let ghost c4 = c;
    let f = c as u64; r1[4] = f & MASK40; q1[0] = (f >> 24) & 0xffffffff; let f = shr128(c, 56);
    let c = mul128( x[4], y[1]); let c = c + (f as u128); let mul = mul128(x[1], y[4]); let c = c + mul; let mul = mul128(x[2], y[3]); let c = c + mul; let mul = mul128(x[3], y[2]); let c = c + mul;
    let ghost c5 = c;
    let f = c as u64; q1[0] = q1[0] | ((f << 32) & MASK56); q1[1] = (f >> 24) & 0xffffffff; let f = shr128(c, 56);
    let c = mul128( x[4], y[2]); let c = c + (f as u128); let mul = mul128(x[2], y[4]); let c = c + mul; let mul = mul128(x[3], y[3]); let c = c + mul;
    let ghost c6 = c;
    let f = c as u64; q1[1] = q1[1] | ((f << 32) & MASK56); q1[2] = (f >> 24) & 0xffffffff; let f = shr128(c, 56);
    let c = mul128( x[4], y[3]); let c = c + (f as u128); let mul = mul128(x[3], y[4]); let c = c + mul;
    let ghost c7 = c;
    let f = c as u64; q1[2] = q1[2] | ((f << 32) & MASK56); q1[3] = (f >> 24) & 0xffffffff; let f = shr128(c, 56);
    let c = mul128( x[4], y[4]); let c = c + (f as u128);
    let ghost c8 = c;
    let f = c as u64; q1[3] = q1[3] | ((f << 32) & MASK56); q1[4] = (f >> 24) & 0xffffffff; let f = shr128(c, 56);
    q1[4] = q1[4] | (f << 32);
    proof {
        lemma_product_split(*x, *y, c0, c1, c2, c3, c4, c5, c6, c7, c8, r1, q1);
    }

    let mut out = [0u64; 5];
    barrett_reduce256_modm(&mut out, &q1, &r1);
    out
}

/// Reduces a 64-byte little-endian number modulo l:
/// s[0] + 256·s[1] + ... + 256^63·s[63] becomes
/// out[0] + 256·out[1] + ... + 256^31·out[31] = s mod l.
pub fn reduce(s: &[u8; 64]) -> (out: [u8; 32])
    ensures
        le_bytes(out@) == le_bytes(s@) % group_order(),
{
    // load little endian bytes to u64
    let x0 = load8(s, 0);
    let x1 = load8(s, 8);
    let x2 = load8(s, 16);
    let x3 = load8(s, 24);
    let x4 = load8(s, 32);
    let x5 = load8(s, 40);
    let x6 = load8(s, 48);
    let x7 = load8(s, 56);

    /* r1 = (x mod 256^(32+1)) = x mod (2^8)(31+1) = x & ((1 << 264) - 1) */
    let mut out = [0u64; 5];
    out[0] = (                     x0) & MASK56;
    out[1] = ((x0 >> 56) | (x1 <<  8)) & MASK56;
    out[2] = ((x1 >> 48) | (x2 << 16)) & MASK56;
    out[3] = ((x2 >> 40) | (x3 << 24)) & MASK56;
    out[4] = ((x3 >> 32) | (x4 << 32)) & MASK40;

    /* q1 = x >> 248 = 264 bits */
    let mut q1 = [0u64; 5];
    q1[0] = ((x3 >> 56) | (x4 <<  8)) & MASK56;
    q1[1] = ((x4 >> 48) | (x5 << 16)) & MASK56;
    q1[2] = ((x5 >> 40) | (x6 << 24)) & MASK56;
    q1[3] = ((x6 >> 32) | (x7 << 32)) & MASK56;
    q1[4] = x7 >> 24;

    proof {
        lemma_le_bytes_64(s@);
        lemma_limb_from_words_8(x0, x1);
        lemma_limb_from_words_16(x1, x2);
        lemma_limb_from_words_24(x2, x3);
        lemma_limb_from_words_8(x3, x4);
        lemma_limb_from_words_16(x4, x5);
        lemma_limb_from_words_24(x5, x6);
        lemma_limb_from_words_32(x6, x7);
        // the top limb of the low part, bits 224 to 263, overlaps the quotient part
        assert({
            &&& ((x3 >> 32) | (x4 << 32)) & 0xffffffffff == (x3 >> 32) + (x4 & 0xff) * 0x100000000
            &&& ((x3 >> 32) | (x4 << 32)) & 0xffffffffff < 0x10000000000
            &&& (((x3 >> 32) | (x4 << 32)) & 0xffffffffff) % 0x1000000 == (x3 >> 32) & 0xffffff
            &&& (((x3 >> 32) | (x4 << 32)) & 0xffffffffff) / 0x1000000 == (((x3 >> 56) | (x4 << 8))
                & 0xffffffffffffff) % 0x10000
            &&& x3 == (x3 & 0xffffffff) + ((x3 >> 32) & 0xffffff) * 0x100000000 + (x3 >> 56)
                * 0x100000000000000
        }) by (bit_vector);
        assert(barrett_input(q1, out) == le_bytes(s@));
    }

    let mut out2 = [0u64; 5];
    barrett_reduce256_modm(&mut out2, &q1, &out);
    proof {
        let v = le_bytes(s@) % group_order();
        lemma_value_of_limbs(v);
        vstd::arithmetic::div_mod::lemma_small_mod(v,
            0x10000000000000000000000000000000000000000000000000000000000000000nat);
    }
    to_bytes(&out2)
}

/// Adds two scalars and subtracts l once if the sum is at least l; for
/// operands below l this is addition modulo l.
pub fn add(x: &[u64; 5], y: &[u64; 5]) -> (r: [u64; 5])
    requires
        limbs_normalized(*x),
        limbs_normalized(*y),
        x[4] + y[4] < 0x7fffffffffffffff,
    ensures
        r == limbs_of(sub_order_once(limbs_value(*x) + limbs_value(*y))),
{
    let mut c: u64;
    let mut r = [0u64; 5];
    proof {
        assert(forall|c: u64| c < 0x200000000000004 ==> #[trigger] (c & 0xffffffffffffff) + (c >> 56)
            * 0x100000000000000 == c && (c >> 56) <= 2 && (c & 0xffffffffffffff) < 0x100000000000000)
            by (bit_vector);
    }

    c = x[0] + y[0]; r[0] = c & MASK56; let ghost c0 = c; c >>= 56;
    c += x[1] + y[1]; r[1] = c & MASK56; let ghost c1 = c; c >>= 56;
    c += x[2] + y[2]; r[2] = c & MASK56; let ghost c2 = c; c >>= 56;
    c += x[3] + y[3]; r[3] = c & MASK56; let ghost c3 = c; c >>= 56;
    c += x[4] + y[4]; r[4] = c;

    proof {
        assert((c0 & 0xffffffffffffff) + (c0 >> 56) * 0x100000000000000 == c0);
        assert((c1 & 0xffffffffffffff) + (c1 >> 56) * 0x100000000000000 == c1);
        assert((c2 & 0xffffffffffffff) + (c2 >> 56) * 0x100000000000000 == c2);
        assert((c3 & 0xffffffffffffff) + (c3 >> 56) * 0x100000000000000 == c3);
        assert(limbs_value(r) == limbs_value(*x) + limbs_value(*y));
    }
    reduce256_modm(&mut r);
    r
}

/// Computes (a·b + c) mod l on 32-byte little-endian scalars:
/// a[0] + 256·a[1] + ... + 256^31·a[31] = a, likewise b and c, and
/// s[0] + 256·s[1] + ... + 256^31·s[31] = (a·b + c) mod l.
pub fn muladd(s: &mut [u8; 32], a: &[u8; 32], b: &[u8; 32], c: &[u8; 32])
    ensures
        le_bytes(final(s)@) == (le_bytes(a@) * le_bytes(b@) + le_bytes(c@)) % group_order(),
{
    let a = from_bytes(a);
    let b = from_bytes(b);
    let c = from_bytes(c);
    let one: [u64; 5] = [1, 0, 0, 0, 0];
    proof {
        law_mul_accepts_loaded(a, b);
        law_mul_accepts_loaded(c, one);
    }

    let m = self::mul(&a, &b);
    // c may reach 2^256 - 1: reduce it modulo l before the sum
    let cr = self::mul(&c, &one);
    proof {
        let l = group_order();
        let p = limbs_value(a) * limbs_value(b);
        assert(one[0] == 1 && one[1] == 0 && one[2] == 0 && one[3] == 0 && one[4] == 0);
        assert(limbs_value(one) == 1);
        vstd::arithmetic::mul::lemma_mul_basics(limbs_value(c) as int);
        lemma_value_of_limbs(p % l);
        lemma_value_of_limbs(limbs_value(c) % l);
        law_muladd_is_modular(limbs_value(a), limbs_value(b), limbs_value(c));
    }
    let r = self::add(&m, &cr);
    proof {
        let v = sub_order_once(limbs_value(m) + limbs_value(cr));
        lemma_value_of_limbs(v);
        vstd::arithmetic::div_mod::lemma_small_mod(v,
            0x10000000000000000000000000000000000000000000000000000000000000000nat);
    }

    *s = to_bytes(&r);
}

} // verus!
