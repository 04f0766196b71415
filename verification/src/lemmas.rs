//! Facts about limbs, words and bytes used by the scalar arithmetic.
use vstd::prelude::*;
use vstd::arithmetic::div_mod::lemma_fundamental_div_mod_converse;
use crate::specs::{group_order, limbs_value, limbs_normalized, limbs_of, le_from, le_bytes, le_word};

verus! {

/// Normalized limbs are the limbs of their own value.
pub proof fn lemma_limbs_of_value(l: [u64; 5])
    requires
        limbs_normalized(l),
    ensures
        limbs_of(limbs_value(l)) == l,
{
    let n = limbs_value(l) as int;
    let p56: int = 0x100000000000000;
    let p112: int = 0x10000000000000000000000000000int;
    let p168: int = 0x1000000000000000000000000000000000000000000int;
    let p224: int = 0x100000000000000000000000000000000000000000000000000000000int;
    let a1 = l[1] + l[2] * p56 + l[3] * p112 + l[4] * p168;
    let a2 = l[2] + l[3] * p56 + l[4] * p112;
    let a3 = l[3] + l[4] * p56;
    lemma_fundamental_div_mod_converse(n, p56, a1, l[0] as int);
    lemma_fundamental_div_mod_converse(a1, p56, a2, l[1] as int);
    lemma_fundamental_div_mod_converse(n, p112, a2, l[0] + l[1] * p56);
    lemma_fundamental_div_mod_converse(a2, p56, a3, l[2] as int);
    lemma_fundamental_div_mod_converse(n, p168, a3, l[0] + l[1] * p56 + l[2] * p112);
    lemma_fundamental_div_mod_converse(a3, p56, l[4] as int, l[3] as int);
    lemma_fundamental_div_mod_converse(n, p224, l[4] as int, l[0] + l[1] * p56 + l[2] * p112 + l[3] * p168);
    assert(limbs_of(limbs_value(l)) =~= l);
}

/// The limbs of a number below 2^288 are normalized and hold that number.
pub proof fn lemma_value_of_limbs(n: nat)
    requires
        n < 0x1000000000000000000000000000000000000000000000000000000000000000000000000int,
    ensures
        limbs_normalized(limbs_of(n)),
        limbs_value(limbs_of(n)) == n,
{
    let n = n as int;
    let p56: int = 0x100000000000000int;
    let p112: int = 0x10000000000000000000000000000int;
    let p168: int = 0x1000000000000000000000000000000000000000000int;
    let p224: int = 0x100000000000000000000000000000000000000000000000000000000int;
    let l = limbs_of(n as nat);
    vstd::arithmetic::div_mod::lemma_fundamental_div_mod(n, p56);
    vstd::arithmetic::div_mod::lemma_fundamental_div_mod(n / p56, p56);
    vstd::arithmetic::div_mod::lemma_fundamental_div_mod(n / p112, p56);
    vstd::arithmetic::div_mod::lemma_fundamental_div_mod(n / p168, p56);
    vstd::arithmetic::div_mod::lemma_div_denominator(n, p56, p56);
    vstd::arithmetic::div_mod::lemma_div_denominator(n, p112, p56);
    vstd::arithmetic::div_mod::lemma_div_denominator(n, p168, p56);
    assert(n / p224 < 0x10000000000000000) by {
        vstd::arithmetic::div_mod::lemma_div_is_ordered(n,
            0x1000000000000000000000000000000000000000000000000000000000000000000000000int - 1, p224);
    }
}

/// A column sum below 2^120 splits into its low 56 bits, taken from its low
/// word, and its carry `c >> 56`; the low 56 bits split further at bit 40
/// and at bit 24.
pub proof fn lemma_column_split(c: u128)
    requires
        c < 0x1000000000000000000000000000000,
    ensures
        c == ((c as u64) & 0xffffffffffffff) as int + ((c >> 56) as u64) as int * 0x100000000000000int,
        (c >> 56) as u64 == c >> 56,
        ((c as u64) & 0xffffffffffffff) == ((c as u64) & 0xffffffffff) + (((c as u64) >> 40) & 0xffff)
            * 0x10000000000,
        ((c as u64) & 0xffffffffffffff) == ((c as u64) & 0xffffff) + (((c as u64) >> 24) & 0xffffffff)
            * 0x1000000,
        (c as u64) & 0xffffffffffffff < 0x100000000000000,
        (c as u64) & 0xffffffffff < 0x10000000000,
        ((c as u64) >> 40) & 0xffff < 0x10000,
        (c as u64) & 0xffffff < 0x1000000,
        ((c as u64) >> 24) & 0xffffffff < 0x100000000,
{
    lemma_carry_56(c);
    let f = c as u64;
    assert({
        &&& (f & 0xffffffffffffff) == (f & 0xffffffffff) + ((f >> 40) & 0xffff) * 0x10000000000
        &&& (f & 0xffffffffffffff) == (f & 0xffffff) + ((f >> 24) & 0xffffffff) * 0x1000000
        &&& f & 0xffffffffff < 0x10000000000
        &&& (f >> 40) & 0xffff < 0x10000
        &&& f & 0xffffff < 0x1000000
        &&& (f >> 24) & 0xffffffff < 0x100000000
    }) by (bit_vector);
}

/// A column sum below 2^120 is its low 56 bits plus its carry `c >> 56`.
pub proof fn lemma_carry_56(c: u128)
    requires
        c < 0x1000000000000000000000000000000,
    ensures
        c == ((c as u64) & 0xffffffffffffff) as int + ((c >> 56) as u64) as int * 0x100000000000000int,
        (c >> 56) as u64 == c >> 56,
        (c as u64) & 0xffffffffffffff < 0x100000000000000,
{
    assert(c < 0x1000000000000000000000000000000 ==> {
        &&& c == ((c as u64) & 0xffffffffffffff) as u128 + ((c >> 56) as u64) as u128 * 0x100000000000000
        &&& (c >> 56) as u64 == c >> 56
        &&& (c as u64) & 0xffffffffffffff < 0x100000000000000
    }) by (bit_vector);
}

/// A column sum below 2^120 splits at bit 40.
pub proof fn lemma_column_split_40(c: u128)
    requires
        c < 0x1000000000000000000000000000000,
    ensures
        c == ((c as u64) & 0xffffffffff) as int + (c >> 40) as int * 0x10000000000int,
        (c as u64) & 0xffffffffff < 0x10000000000,
{
    assert({
        &&& c == ((c as u64) & 0xffffffffff) as u128 + (c >> 40) * 0x10000000000
        &&& (c as u64) & 0xffffffffff < 0x10000000000
    }) by (bit_vector);
}

/// Selecting between two words with an all-zeros or all-ones mask:
/// `x ^ (mask & (x ^ y))` is `x` for the zero mask and `y` for the full one.
pub proof fn lemma_masked_select(mask: u64, x: u64, y: u64)
    ensures
        mask == 0 ==> x ^ (mask & (x ^ y)) == x,
        mask == 0xffffffffffffffff ==> x ^ (mask & (x ^ y)) == y,
{
    assert((mask == 0 ==> x ^ (mask & (x ^ y)) == x) && (mask == 0xffffffffffffffff ==> x ^ (mask
        & (x ^ y)) == y)) by (bit_vector);
}

/// Powers of two as shifts of 1, and shifts of 0.
pub proof fn lemma_shift_constants()
    ensures
        1u64 << 56 == 0x100000000000000,
        1u64 << 40 == 0x10000000000,
        1u64 << 32 == 0x100000000,
        0u64 << 56 == 0,
        0u64 << 40 == 0,
        0u64 << 32 == 0,
{
    assert({
        &&& 1u64 << 56 == 0x100000000000000
        &&& 1u64 << 40 == 0x10000000000
        &&& 1u64 << 32 == 0x100000000
        &&& 0u64 << 56 == 0
        &&& 0u64 << 40 == 0
        &&& 0u64 << 32 == 0
    }) by (bit_vector);
}

/// A 56-bit limb made of the top 8 bits of word `a` and the low 48 bits of
/// word `b`; with the splits of `a` and `b` that it uses.
pub proof fn lemma_limb_from_words_8(a: u64, b: u64)
    ensures
        ((a >> 56) | (b << 8)) & 0xffffffffffffff == (a >> 56) + (b & 0xffffffffffff) * 0x100,
        ((a >> 56) | (b << 8)) & 0xffffffffffffff < 0x100000000000000,
        a == (a & 0xffffffffffffff) + (a >> 56) * 0x100000000000000,
        a & 0xffffffffffffff < 0x100000000000000,
        b == (b & 0xffffffffffff) + (b >> 48) * 0x1000000000000,
{
    assert({
        &&& ((a >> 56) | (b << 8)) & 0xffffffffffffff == (a >> 56) + (b & 0xffffffffffff) * 0x100
        &&& ((a >> 56) | (b << 8)) & 0xffffffffffffff < 0x100000000000000
        &&& a == (a & 0xffffffffffffff) + (a >> 56) * 0x100000000000000
        &&& a & 0xffffffffffffff < 0x100000000000000
        &&& b == (b & 0xffffffffffff) + (b >> 48) * 0x1000000000000
    }) by (bit_vector);
}

/// A 56-bit limb made of the top 16 bits of word `a` and the low 40 bits of
/// word `b`; with the split of `b` that it uses.
pub proof fn lemma_limb_from_words_16(a: u64, b: u64)
    ensures
        ((a >> 48) | (b << 16)) & 0xffffffffffffff == (a >> 48) + (b & 0xffffffffff) * 0x10000,
        ((a >> 48) | (b << 16)) & 0xffffffffffffff < 0x100000000000000,
        b == (b & 0xffffffffff) + (b >> 40) * 0x10000000000,
{
    assert({
        &&& ((a >> 48) | (b << 16)) & 0xffffffffffffff == (a >> 48) + (b & 0xffffffffff) * 0x10000
        &&& ((a >> 48) | (b << 16)) & 0xffffffffffffff < 0x100000000000000
        &&& b == (b & 0xffffffffff) + (b >> 40) * 0x10000000000
    }) by (bit_vector);
}

/// A 56-bit limb made of the top 24 bits of word `a` and the low 32 bits of
/// word `b`; with the split of `b` that it uses.
pub proof fn lemma_limb_from_words_24(a: u64, b: u64)
    ensures
        ((a >> 40) | (b << 24)) & 0xffffffffffffff == (a >> 40) + (b & 0xffffffff) * 0x1000000,
        ((a >> 40) | (b << 24)) & 0xffffffffffffff < 0x100000000000000,
        b == (b & 0xffffffff) + (b >> 32) * 0x100000000,
        b >> 32 < 0x100000000,
{
    assert({
        &&& ((a >> 40) | (b << 24)) & 0xffffffffffffff == (a >> 40) + (b & 0xffffffff) * 0x1000000
        &&& ((a >> 40) | (b << 24)) & 0xffffffffffffff < 0x100000000000000
        &&& b == (b & 0xffffffff) + (b >> 32) * 0x100000000
        &&& b >> 32 < 0x100000000
    }) by (bit_vector);
}

/// A 56-bit limb made of the top 32 bits of word `a` and the low 24 bits of
/// word `b`; with the split of `b` that it uses.
pub proof fn lemma_limb_from_words_32(a: u64, b: u64)
    ensures
        ((a >> 32) | (b << 32)) & 0xffffffffffffff == (a >> 32) + (b & 0xffffff) * 0x100000000,
        ((a >> 32) | (b << 32)) & 0xffffffffffffff < 0x100000000000000,
        b == (b & 0xffffff) + (b >> 24) * 0x1000000,
        b >> 24 < 0x10000000000,
{
    assert({
        &&& ((a >> 32) | (b << 32)) & 0xffffffffffffff == (a >> 32) + (b & 0xffffff) * 0x100000000
        &&& ((a >> 32) | (b << 32)) & 0xffffffffffffff < 0x100000000000000
        &&& b == (b & 0xffffff) + (b >> 24) * 0x1000000
        &&& b >> 24 < 0x10000000000
    }) by (bit_vector);
}

/// Joining a 16-bit high part with the low 40 bits of `g` placed above it.
pub proof fn lemma_join_16_40(a: u64, g: u64)
    requires
        a < 0x10000,
    ensures
        a | ((g << 16) & 0xffffffffffffff) == a + (g & 0xffffffffff) * 0x10000,
{
    assert(a < 0x10000 ==> a | ((g << 16) & 0xffffffffffffff) == a + (g & 0xffffffffff) * 0x10000)
        by (bit_vector);
}

/// Joining a 32-bit high part with the low 24 bits of `g` placed above it.
pub proof fn lemma_join_32_24(a: u64, g: u64)
    requires
        a < 0x100000000,
    ensures
        a | ((g << 32) & 0xffffffffffffff) == a + (g & 0xffffff) * 0x100000000,
{
    assert(a < 0x100000000 ==> a | ((g << 32) & 0xffffffffffffff) == a + (g & 0xffffff)
        * 0x100000000) by (bit_vector);
}

/// The Barrett quotient estimate is short of the true quotient by at most two:
/// if `q3·2^264 + rem + low == q·mu` with `mu = floor(2^512 / l)`, small
/// discarded parts `rem` and `low`, and `x = q·2^248 + r0`, then
/// `0 <= x - q3·l < 3·l`.
pub proof fn lemma_barrett_bound(q: int, r0: int, q3: int, low: int, rem: int)
    requires
        0 <= q < 0x1000000000000000000000000000000000000000000000000000000000000000000int,
        0 <= r0 < 0x100000000000000000000000000000000000000000000000000000000000000int,
        0 <= low < 0x800000000000000000000000000000000000000000000000000000000int,
        0 <= rem < 0x1000000000000000000000000000000000000000000000000000000000000000000int,
        q3 * 0x1000000000000000000000000000000000000000000000000000000000000000000int + rem + low
            == q * 1852673427797059126777135760139006525645217721299241702126143248052143860224795int,
    ensures
        0 <= q * 0x100000000000000000000000000000000000000000000000000000000000000int + r0
            - q3 * group_order() < 3 * group_order(),
{
    let p264 = 0x1000000000000000000000000000000000000000000000000000000000000000000int;
    let x = q * 0x100000000000000000000000000000000000000000000000000000000000000int + r0;
    let l = 7237005577332262213973186563042994240857116359379907606001950938285454250989int;
    // 2^512 - mu·l
    let rho = 1627715501170711445284395025044413883736156588369414752970002579683115011841int;
    assert((x - q3 * l) * p264 == q * rho + r0 * p264 + (rem + low) * l);
    assert(q * rho <= p264 * rho);
    assert((rem + low) * l < (p264 + 0x800000000000000000000000000000000000000000000000000000000int) * l);
    assert(r0 * p264 < 0x100000000000000000000000000000000000000000000000000000000000000int * p264);
}

/// Eight steps of the little-endian sum make one 64-bit word.
pub proof fn lemma_le_from_word(s: Seq<u8>, i: int)
    requires
        0 <= i,
        i + 8 <= s.len(),
    ensures
        le_from(s, i) == le_word(s, i) + 0x10000000000000000 * le_from(s, i + 8),
{
    reveal_with_fuel(le_from, 9);
}

/// A 32-byte string is four little-endian words.
pub proof fn lemma_le_bytes_32(s: Seq<u8>)
    requires
        s.len() == 32,
    ensures
        le_bytes(s) == le_word(s, 0) + le_word(s, 8) * 0x10000000000000000int
            + le_word(s, 16) * 0x100000000000000000000000000000000int
            + le_word(s, 24) * 0x1000000000000000000000000000000000000000000000000int,
{
    lemma_le_from_word(s, 0);
    lemma_le_from_word(s, 8);
    lemma_le_from_word(s, 16);
    lemma_le_from_word(s, 24);
    assert(le_from(s, 32) == 0);
}

/// A 64-byte string is eight little-endian words.
pub proof fn lemma_le_bytes_64(s: Seq<u8>)
    requires
        s.len() == 64,
    ensures
        le_bytes(s) == le_word(s, 0) + le_word(s, 8) * 0x10000000000000000int
            + le_word(s, 16) * 0x100000000000000000000000000000000int
            + le_word(s, 24) * 0x1000000000000000000000000000000000000000000000000int
            + le_word(s, 32) * 0x10000000000000000000000000000000000000000000000000000000000000000int
            + le_word(s, 40) * 0x100000000000000000000000000000000000000000000000000000000000000000000000000000000int
            + le_word(s, 48) * 0x1000000000000000000000000000000000000000000000000000000000000000000000000000000000000000000000000int
            + le_word(s, 56) * 0x10000000000000000000000000000000000000000000000000000000000000000000000000000000000000000000000000000000000000000int,
{
    lemma_le_from_word(s, 0);
    lemma_le_from_word(s, 8);
    lemma_le_from_word(s, 16);
    lemma_le_from_word(s, 24);
    lemma_le_from_word(s, 32);
    lemma_le_from_word(s, 40);
    lemma_le_from_word(s, 48);
    lemma_le_from_word(s, 56);
    assert(le_from(s, 64) == 0);
}

/// The bytes of a 64-bit word, from the lowest, make it up again.
pub proof fn lemma_word_bytes(v: u64)
    ensures
        v == (v as u8) as nat + ((v >> 8) as u8) as nat * 0x100 + ((v >> 16) as u8) as nat * 0x10000
            + ((v >> 24) as u8) as nat * 0x1000000 + ((v >> 32) as u8) as nat * 0x100000000
            + ((v >> 40) as u8) as nat * 0x10000000000 + ((v >> 48) as u8) as nat
            * 0x1000000000000 + ((v >> 56) as u8) as nat * 0x100000000000000,
{
    assert(v == (v as u8) as u64 + ((v >> 8) as u8) as u64 * 0x100 + ((v >> 16) as u8) as u64 * 0x10000
        + ((v >> 24) as u8) as u64 * 0x1000000 + ((v >> 32) as u8) as u64 * 0x100000000
        + ((v >> 40) as u8) as u64 * 0x10000000000 + ((v >> 48) as u8) as u64 * 0x1000000000000
        + ((v >> 56) as u8) as u64 * 0x100000000000000) by (bit_vector);
}

} // verus!
