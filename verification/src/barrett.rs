//! The two steps of Barrett reduction modulo l that need arithmetic beyond
//! bit manipulation: the quotient estimate and the product q3·l.
use vstd::prelude::*;
use crate::specs::{barrett_input, limbs_value, limbs_normalized};
use crate::lemmas::{lemma_carry_56, lemma_column_split, lemma_column_split_40, lemma_join_16_40, lemma_barrett_bound};

verus! {

/// The quotient estimate `q3` of Barrett reduction, built from the columns
/// 3 to 8 of mu·q1, is short of floor(x / l) by at most two, for every x
/// whose bits from 248 on are q1.
#[verifier::rlimit(100)]
pub proof fn lemma_quotient_estimate(
    q1: [u64; 5],
    c3: u128,
    c4: u128,
    c5: u128,
    c6: u128,
    c7: u128,
    c8: u128,
    q3: [u64; 5],
    r1: [u64; 5],
)
    requires
        limbs_normalized(q1),
        q1[4] < 0x10000000000,
        limbs_normalized(r1),
        c3 == 0x9ce5a30a2c131b * q1[3] + 0xffffffffffffff * q1[0] + 0x215d086329a7ed * q1[2] + 0xffffffffeb2106 * q1[1],
        c4 == 0x9ce5a30a2c131b * q1[4] + ((c3 >> 56) as u64) + 0xfffffffff * q1[0] + 0xffffffffffffff * q1[1] + 0x215d086329a7ed * q1[3] + 0xffffffffeb2106 * q1[2],
        c5 == 0xfffffffff * q1[1] + ((c4 >> 56) as u64) + 0x215d086329a7ed * q1[4] + 0xffffffffeb2106 * q1[3] + 0xffffffffffffff * q1[2],
        c6 == 0xfffffffff * q1[2] + ((c5 >> 56) as u64) + 0xffffffffeb2106 * q1[4] + 0xffffffffffffff * q1[3],
        c7 == 0xfffffffff * q1[3] + ((c6 >> 56) as u64) + 0xffffffffffffff * q1[4],
        c8 == 0xfffffffff * q1[4] + ((c7 >> 56) as u64),
        q3[0] == (((c4 as u64) >> 40) & 0xffff) | (((c5 as u64) << 16) & 0xffffffffffffff),
        q3[1] == (((c5 as u64) >> 40) & 0xffff) | (((c6 as u64) << 16) & 0xffffffffffffff),
        q3[2] == (((c6 as u64) >> 40) & 0xffff) | (((c7 as u64) << 16) & 0xffffffffffffff),
        q3[3] == (((c7 as u64) >> 40) & 0xffff) | (((c8 as u64) << 16) & 0xffffffffffffff),
        q3[4] == (((c8 as u64) >> 40) & 0xffff) | (((c8 >> 56) as u64) << 16),
    ensures
        limbs_normalized(q3),
        q3[4] < 0x2000000000,
        0 <= barrett_input(q1, r1) - limbs_value(q3)
            * 7237005577332262213973186563042994240857116359379907606001950938285454250989int
            < 3 * 7237005577332262213973186563042994240857116359379907606001950938285454250989int,
{
    lemma_column_split(c3);
    lemma_column_split(c4);
    lemma_column_split(c5);
    lemma_column_split(c6);
    lemma_column_split(c7);
    lemma_column_split(c8);
    lemma_join_16_40(((c4 as u64) >> 40) & 0xffff, c5 as u64);
    lemma_join_16_40(((c5 as u64) >> 40) & 0xffff, c6 as u64);
    lemma_join_16_40(((c6 as u64) >> 40) & 0xffff, c7 as u64);
    lemma_join_16_40(((c7 as u64) >> 40) & 0xffff, c8 as u64);
    let a = ((c8 as u64) >> 40) & 0xffff;
    let g = (c8 >> 56) as u64;
    assert(a < 0x10000 && g < 0x1000000000000 ==> a | (g << 16) == a + g * 0x10000) by (bit_vector);
    let q = limbs_value(q1) as int;
    // the columns of mu·q1 below column 3, which the estimate leaves out
    let low = 0x9ce5a30a2c131b * q1[0] + (0x9ce5a30a2c131b * q1[1] + 0x215d086329a7ed * q1[0]) * 0x100000000000000int
        + (0x9ce5a30a2c131b * q1[2] + 0x215d086329a7ed * q1[1] + 0xffffffffeb2106 * q1[0]) * 0x10000000000000000000000000000int;
    let rem = ((c3 as u64) & 0xffffffffffffff) * 0x1000000000000000000000000000000000000000000int
        + ((c4 as u64) & 0xffffffffff) * 0x100000000000000000000000000000000000000000000000000000000int;
    assert(limbs_value(q3) * 0x1000000000000000000000000000000000000000000000000000000000000000000int
        + rem + low == q * 1852673427797059126777135760139006525645217721299241702126143248052143860224795int);
    let r0 = r1[0] as int + r1[1] * 0x100000000000000int + r1[2] * 0x10000000000000000000000000000int
        + r1[3] * 0x1000000000000000000000000000000000000000000int
        + (r1[4] as int % 0x1000000) * 0x100000000000000000000000000000000000000000000000000000000int;
    assert(0 <= r0 < 0x100000000000000000000000000000000000000000000000000000000000000int);
    lemma_barrett_bound(q, r0, limbs_value(q3) as int, low, rem);
}

/// The columns 0 to 4 of q3·l, carried in radix 2^56 and cut at bit 264,
/// agree with q3·l below bit 264.
#[verifier::rlimit(100)]
pub proof fn lemma_product_low(q3: [u64; 5], d0: u128, d1: u128, d2: u128, d3: u128, d4: u128, r2: [u64; 5]) -> (k: int)
    requires
        limbs_normalized(q3),
        q3[4] < 0x2000000000,
        d0 == 0x12631a5cf5d3ed * q3[0],
        d1 == 0x12631a5cf5d3ed * q3[1] + ((d0 >> 56) as u64) + 0xf9dea2f79cd658 * q3[0],
        d2 == 0x12631a5cf5d3ed * q3[2] + ((d1 >> 56) as u64) + 0x14de * q3[0] + 0xf9dea2f79cd658 * q3[1],
        d3 == 0x12631a5cf5d3ed * q3[3] + ((d2 >> 56) as u64) + 0 * q3[0] + 0xf9dea2f79cd658 * q3[2] + 0x14de * q3[1],
        d4 == 0x12631a5cf5d3ed * q3[4] + ((d3 >> 56) as u64) + 0x10000000 * q3[0] + 0 * q3[1] + 0xf9dea2f79cd658 * q3[3] + 0x14de * q3[2],
        r2[0] == (d0 as u64) & 0xffffffffffffff,
        r2[1] == (d1 as u64) & 0xffffffffffffff,
        r2[2] == (d2 as u64) & 0xffffffffffffff,
        r2[3] == (d3 as u64) & 0xffffffffffffff,
        r2[4] == (d4 as u64) & 0xffffffffff,
    ensures
        limbs_normalized(r2),
        r2[4] < 0x10000000000,
        limbs_value(q3) * 7237005577332262213973186563042994240857116359379907606001950938285454250989int == limbs_value(r2)
            + k * 0x1000000000000000000000000000000000000000000000000000000000000000000int,
{
    lemma_carry_56(d0);
    lemma_carry_56(d1);
    lemma_carry_56(d2);
    lemma_carry_56(d3);
    lemma_column_split_40(d4);
    let s = 0x12631a5cf5d3ed * q3[0] + (0x12631a5cf5d3ed * q3[1] + 0xf9dea2f79cd658 * q3[0]) * 0x100000000000000int
        + (0x12631a5cf5d3ed * q3[2] + 0x14de * q3[0] + 0xf9dea2f79cd658 * q3[1]) * 0x10000000000000000000000000000int
        + (0x12631a5cf5d3ed * q3[3] + 0xf9dea2f79cd658 * q3[2] + 0x14de * q3[1]) * 0x1000000000000000000000000000000000000000000int
        + (0x12631a5cf5d3ed * q3[4] + 0x10000000 * q3[0] + 0xf9dea2f79cd658 * q3[3] + 0x14de * q3[2]) * 0x100000000000000000000000000000000000000000000000000000000int;
    assert(s == limbs_value(r2) + (d4 >> 40) as int * 0x1000000000000000000000000000000000000000000000000000000000000000000int);
    let k = (d4 >> 40) as int + (0xf9dea2f79cd658 * q3[4] + 0x14de * q3[3] + 0x10000000 * q3[1]) * 0x10000int
        + (0x14de * q3[4] + 0x10000000 * q3[2]) * 0x1000000000000000000int
        + 0x10000000 * q3[3] * 0x100000000000000000000000000000000int
        + 0x10000000 * q3[4] * 0x10000000000000000000000000000000000000000000000int;
    assert(limbs_value(q3) * 7237005577332262213973186563042994240857116359379907606001950938285454250989int
        == limbs_value(r2) + k * 0x1000000000000000000000000000000000000000000000000000000000000000000int);
    k
}

/// Barrett reduction subtracts q3·l from x by working below bit 264 only:
/// with `r2 = q3·l mod 2^264` and `d = r1 - r2 mod 2^264`, d is exactly
/// x - q3·l, as that difference lies in [0, 2^264).
pub proof fn lemma_barrett_difference(q1: [u64; 5], r1: [u64; 5], r2v: int, q3v: int, k: int, b: int, d: int)
    requires
        limbs_normalized(q1),
        limbs_normalized(r1),
        r1[4] < 0x10000000000,
        r1[4] as int / 0x1000000 == q1[0] as int % 0x10000,
        q3v * 7237005577332262213973186563042994240857116359379907606001950938285454250989int == r2v + k * 0x1000000000000000000000000000000000000000000000000000000000000000000int,
        d == limbs_value(r1) - r2v + b * 0x1000000000000000000000000000000000000000000000000000000000000000000int,
        0 <= d < 0x1000000000000000000000000000000000000000000000000000000000000000000int,
        0 <= barrett_input(q1, r1) - q3v * 7237005577332262213973186563042994240857116359379907606001950938285454250989int < 3 * 7237005577332262213973186563042994240857116359379907606001950938285454250989int,
    ensures
        d == barrett_input(q1, r1) - q3v * 7237005577332262213973186563042994240857116359379907606001950938285454250989int,
{
    let p264 = 0x1000000000000000000000000000000000000000000000000000000000000000000int;
    let x = barrett_input(q1, r1) as int;
    vstd::arithmetic::div_mod::lemma_fundamental_div_mod(r1[4] as int, 0x1000000);
    vstd::arithmetic::div_mod::lemma_fundamental_div_mod(q1[0] as int, 0x10000);
    let hi = q1[0] as int / 0x10000 + (q1[1] + q1[2] * 0x100000000000000int
        + q1[3] * 0x10000000000000000000000000000int
        + q1[4] * 0x1000000000000000000000000000000000000000000int) * 0x10000000000int;
    assert(x == limbs_value(r1) + hi * p264);
    assert(d == x - q3v * 7237005577332262213973186563042994240857116359379907606001950938285454250989int + (b + k - hi) * p264);
}

/// A borrow chain over five limbs computes r1 - r2 + b·2^264 with the final
/// borrow b.
pub proof fn lemma_borrow_chain(r1: [u64; 5], r2: [u64; 5], out: [u64; 5], b0: int, b1: int, b2: int, b3: int, b4: int)
    requires
        out[0] == r1[0] - r2[0] + b0 * 0x100000000000000int,
        out[1] == r1[1] - r2[1] - b0 + b1 * 0x100000000000000int,
        out[2] == r1[2] - r2[2] - b1 + b2 * 0x100000000000000int,
        out[3] == r1[3] - r2[3] - b2 + b3 * 0x100000000000000int,
        out[4] == r1[4] - r2[4] - b3 + b4 * 0x10000000000int,
    ensures
        limbs_value(out) == limbs_value(r1) - limbs_value(r2)
            + b4 * 0x1000000000000000000000000000000000000000000000000000000000000000000int,
{
}

} // verus!
