//! The schoolbook product of two five-limb numbers, carried in radix 2^56 and
//! split into the two inputs of Barrett reduction.
use vstd::prelude::*;
use crate::specs::{barrett_input, limbs_value, limbs_normalized};
use crate::lemmas::{lemma_carry_56, lemma_column_split, lemma_join_32_24};

verus! {

/// The product of two numbers in radix 2^56 is the sum of its nine columns.
pub proof fn lemma_product_columns(x: [u64; 5], y: [u64; 5])
    ensures
        limbs_value(x) * limbs_value(y) == x[0] * y[0]
            + (x[0] * y[1] + x[1] * y[0]) * 0x100000000000000int
            + (x[0] * y[2] + x[1] * y[1] + x[2] * y[0]) * 0x10000000000000000000000000000int
            + (x[0] * y[3] + x[1] * y[2] + x[2] * y[1] + x[3] * y[0]) * 0x1000000000000000000000000000000000000000000int
            + (x[0] * y[4] + x[1] * y[3] + x[2] * y[2] + x[3] * y[1] + x[4] * y[0]) * 0x100000000000000000000000000000000000000000000000000000000int
            + (x[1] * y[4] + x[2] * y[3] + x[3] * y[2] + x[4] * y[1]) * 0x10000000000000000000000000000000000000000000000000000000000000000000000int
            + (x[2] * y[4] + x[3] * y[3] + x[4] * y[2]) * 0x1000000000000000000000000000000000000000000000000000000000000000000000000000000000000int
            + (x[3] * y[4] + x[4] * y[3]) * 0x100000000000000000000000000000000000000000000000000000000000000000000000000000000000000000000000000int
            + x[4] * y[4] * 0x10000000000000000000000000000000000000000000000000000000000000000000000000000000000000000000000000000000000000000int,
{
    let (x0, x1, x2, x3, x4) = (x[0] as int, x[1] as int, x[2] as int, x[3] as int, x[4] as int);
    let (y0, y1, y2, y3, y4) = (y[0] as int, y[1] as int, y[2] as int, y[3] as int, y[4] as int);
    let yv = limbs_value(y) as int;
    assert(yv == y0 + y1 * 0x100000000000000int + y2 * 0x10000000000000000000000000000int
        + y3 * 0x1000000000000000000000000000000000000000000int
        + y4 * 0x100000000000000000000000000000000000000000000000000000000int);
    assert(limbs_value(x) * yv == x0 * yv + (x1 * yv) * 0x100000000000000int
        + (x2 * yv) * 0x10000000000000000000000000000int
        + (x3 * yv) * 0x1000000000000000000000000000000000000000000int
        + (x4 * yv) * 0x100000000000000000000000000000000000000000000000000000000int) by {
        broadcast use vstd::arithmetic::mul::group_mul_is_commutative_and_distributive;
        broadcast use vstd::arithmetic::mul::lemma_mul_is_associative;
    }
    assert forall|a: int| #![trigger a * yv] a * yv == a * y0 + (a * y1) * 0x100000000000000int
        + (a * y2) * 0x10000000000000000000000000000int
        + (a * y3) * 0x1000000000000000000000000000000000000000000int
        + (a * y4) * 0x100000000000000000000000000000000000000000000000000000000int by {
        broadcast use vstd::arithmetic::mul::group_mul_is_commutative_and_distributive;
        broadcast use vstd::arithmetic::mul::lemma_mul_is_associative;
    }
    assert(x0 * yv == x0 * y0 + (x0 * y1) * 0x100000000000000int
        + (x0 * y2) * 0x10000000000000000000000000000int
        + (x0 * y3) * 0x1000000000000000000000000000000000000000000int
        + (x0 * y4) * 0x100000000000000000000000000000000000000000000000000000000int);
    assert(x1 * yv == x1 * y0 + (x1 * y1) * 0x100000000000000int
        + (x1 * y2) * 0x10000000000000000000000000000int
        + (x1 * y3) * 0x1000000000000000000000000000000000000000000int
        + (x1 * y4) * 0x100000000000000000000000000000000000000000000000000000000int);
    assert(x2 * yv == x2 * y0 + (x2 * y1) * 0x100000000000000int
        + (x2 * y2) * 0x10000000000000000000000000000int
        + (x2 * y3) * 0x1000000000000000000000000000000000000000000int
        + (x2 * y4) * 0x100000000000000000000000000000000000000000000000000000000int);
    assert(x3 * yv == x3 * y0 + (x3 * y1) * 0x100000000000000int
        + (x3 * y2) * 0x10000000000000000000000000000int
        + (x3 * y3) * 0x1000000000000000000000000000000000000000000int
        + (x3 * y4) * 0x100000000000000000000000000000000000000000000000000000000int);
    assert(x4 * yv == x4 * y0 + (x4 * y1) * 0x100000000000000int
        + (x4 * y2) * 0x10000000000000000000000000000int
        + (x4 * y3) * 0x1000000000000000000000000000000000000000000int
        + (x4 * y4) * 0x100000000000000000000000000000000000000000000000000000000int);
}

/// The columns of x·y, carried in radix 2^56, give the low 264 bits `r1` and
/// the bits from 248 on `q1` of the product, in the form Barrett reduction
/// takes them.
#[verifier::rlimit(50)]
pub proof fn lemma_product_split(
    x: [u64; 5],
    y: [u64; 5],
    c0: u128,
    c1: u128,
    c2: u128,
    c3: u128,
    c4: u128,
    c5: u128,
    c6: u128,
    c7: u128,
    c8: u128,
    r1: [u64; 5],
    q1: [u64; 5],
)
    requires
        limbs_value(x) * limbs_value(y) < 0x100000000000000000000000000000000000000000000000000000000000000000000000000000000000000000000000000000000000000000000000000000000int,
        c0 < 0x1000000000000000000000000000000,
        c1 < 0x1000000000000000000000000000000,
        c2 < 0x1000000000000000000000000000000,
        c3 < 0x1000000000000000000000000000000,
        c4 < 0x1000000000000000000000000000000,
        c5 < 0x1000000000000000000000000000000,
        c6 < 0x1000000000000000000000000000000,
        c7 < 0x1000000000000000000000000000000,
        c8 < 0x1000000000000000000000000000000,
        c0 == x[0] * y[0],
        c1 == x[0] * y[1] + ((c0 >> 56) as u64) + x[1] * y[0],
        c2 == x[0] * y[2] + ((c1 >> 56) as u64) + x[2] * y[0] + x[1] * y[1],
        c3 == x[0] * y[3] + ((c2 >> 56) as u64) + x[3] * y[0] + x[1] * y[2] + x[2] * y[1],
        c4 == x[0] * y[4] + ((c3 >> 56) as u64) + x[4] * y[0] + x[3] * y[1] + x[1] * y[3] + x[2] * y[2],
        c5 == x[4] * y[1] + ((c4 >> 56) as u64) + x[1] * y[4] + x[2] * y[3] + x[3] * y[2],
        c6 == x[4] * y[2] + ((c5 >> 56) as u64) + x[2] * y[4] + x[3] * y[3],
        c7 == x[4] * y[3] + ((c6 >> 56) as u64) + x[3] * y[4],
        c8 == x[4] * y[4] + ((c7 >> 56) as u64),
        r1[0] == (c0 as u64) & 0xffffffffffffff,
        r1[1] == (c1 as u64) & 0xffffffffffffff,
        r1[2] == (c2 as u64) & 0xffffffffffffff,
        r1[3] == (c3 as u64) & 0xffffffffffffff,
        r1[4] == (c4 as u64) & 0xffffffffff,
        q1[0] == (((c4 as u64) >> 24) & 0xffffffff) | (((c5 as u64) << 32) & 0xffffffffffffff),
        q1[1] == (((c5 as u64) >> 24) & 0xffffffff) | (((c6 as u64) << 32) & 0xffffffffffffff),
        q1[2] == (((c6 as u64) >> 24) & 0xffffffff) | (((c7 as u64) << 32) & 0xffffffffffffff),
        q1[3] == (((c7 as u64) >> 24) & 0xffffffff) | (((c8 as u64) << 32) & 0xffffffffffffff),
        q1[4] == (((c8 as u64) >> 24) & 0xffffffff) | (((c8 >> 56) as u64) << 32),
    ensures
        limbs_normalized(q1),
        q1[4] < 0x10000000000,
        limbs_normalized(r1),
        r1[4] < 0x10000000000,
        r1[4] as int / 0x1000000 == q1[0] as int % 0x10000,
        barrett_input(q1, r1) == limbs_value(x) * limbs_value(y),
{
    lemma_product_columns(x, y);
    lemma_carry_56(c0);
    lemma_carry_56(c1);
    lemma_carry_56(c2);
    lemma_carry_56(c3);
    lemma_column_split(c4);
    lemma_column_split(c5);
    lemma_column_split(c6);
    lemma_column_split(c7);
    lemma_column_split(c8);
    lemma_join_32_24(((c4 as u64) >> 24) & 0xffffffff, c5 as u64);
    lemma_join_32_24(((c5 as u64) >> 24) & 0xffffffff, c6 as u64);
    lemma_join_32_24(((c6 as u64) >> 24) & 0xffffffff, c7 as u64);
    lemma_join_32_24(((c7 as u64) >> 24) & 0xffffffff, c8 as u64);
    let f4 = c4 as u64;
    let g5 = c5 as u64;
    assert((f4 & 0xffffffffff) % 0x1000000 == f4 & 0xffffff) by (bit_vector);
    assert((f4 & 0xffffffffff) / 0x1000000 == (((f4 >> 24) & 0xffffffff) | ((g5 << 32)
        & 0xffffffffffffff)) % 0x10000) by (bit_vector);
    assert(f4 & 0xffffffffff < 0x10000000000) by (bit_vector);
    // the product is below 2^512, so the top column is below 2^64
    assert(c8 < 0x10000000000000000);
    let a = ((c8 as u64) >> 24) & 0xffffffff;
    let g = (c8 >> 56) as u64;
    assert(a < 0x100000000 && g < 0x100 ==> a | (g << 32) == a + g * 0x100000000) by (bit_vector);
    assert(barrett_input(q1, r1) == limbs_value(x) * limbs_value(y));
}

} // verus!
