//! Properties of the scalar operations as a whole, stated over the same
//! spec functions as their contracts.
use vstd::prelude::*;
use crate::specs::{group_order, limbs_value, limbs_256, limbs_of, sub_order_once, le_bytes, le_from};
use crate::lemmas::{lemma_limbs_of_value, lemma_value_of_limbs, lemma_le_bytes_32};

verus! {

/// Storing 32-byte-sized limbs and loading them again gives the same limbs:
/// `from_bytes(&to_bytes(s)) == s` for every `s` that `from_bytes` can return.
pub proof fn law_limbs_bytes_round_trip(s: [u64; 5])
    requires
        limbs_256(s),
    ensures
        limbs_of((limbs_value(s) as int % 0x10000000000000000000000000000000000000000000000000000000000000000int) as nat) == s,
{
    let v = limbs_value(s);
    assert(v < 0x10000000000000000000000000000000000000000000000000000000000000000int);
    vstd::arithmetic::div_mod::lemma_small_mod(v, 0x10000000000000000000000000000000000000000000000000000000000000000nat);
    lemma_limbs_of_value(s);
}

/// Two byte strings of one length with the same little-endian value from
/// index `i` on agree from index `i` on.
pub proof fn lemma_le_from_injective(s1: Seq<u8>, s2: Seq<u8>, i: int)
    requires
        s1.len() == s2.len(),
        0 <= i,
        le_from(s1, i) == le_from(s2, i),
    ensures
        forall|j: int| i <= j < s1.len() ==> s1[j] == s2[j],
    decreases s1.len() - i,
{
    if i < s1.len() {
        assert(s1[i] == s2[i] && le_from(s1, i + 1) == le_from(s2, i + 1));
        lemma_le_from_injective(s1, s2, i + 1);
    }
}

/// Loading 32 bytes and storing the limbs again gives the same bytes:
/// `to_bytes(&from_bytes(b)) == b` for every `b`.
pub proof fn law_bytes_limbs_round_trip(b: [u8; 32], out: [u8; 32])
    requires
        le_bytes(out@) == limbs_value(limbs_of(le_bytes(b@))) as int
            % 0x10000000000000000000000000000000000000000000000000000000000000000int,
    ensures
        out == b,
{
    lemma_le_bytes_32(b@);
    let v = le_bytes(b@);
    assert(v < 0x10000000000000000000000000000000000000000000000000000000000000000int);
    lemma_value_of_limbs(v);
    vstd::arithmetic::div_mod::lemma_small_mod(v, 0x10000000000000000000000000000000000000000000000000000000000000000nat);
    lemma_le_from_injective(out@, b@, 0);
    assert(out@ =~= b@);
}

/// Addition is commutative: `add(x, y) == add(y, x)`.
pub proof fn law_add_commutes(x: [u64; 5], y: [u64; 5])
    ensures
        limbs_of(sub_order_once(limbs_value(x) + limbs_value(y)))
            == limbs_of(sub_order_once(limbs_value(y) + limbs_value(x))),
{
}

/// On operands below l, `add` is addition modulo l.
pub proof fn law_add_is_modular(x: [u64; 5], y: [u64; 5])
    requires
        limbs_value(x) < group_order(),
        limbs_value(y) < group_order(),
    ensures
        sub_order_once(limbs_value(x) + limbs_value(y)) == (limbs_value(x) + limbs_value(y)) % group_order(),
{
    let s = limbs_value(x) + limbs_value(y);
    if s >= group_order() {
        vstd::arithmetic::div_mod::lemma_fundamental_div_mod_converse(s as int, group_order() as int, 1, s - group_order());
    } else {
        vstd::arithmetic::div_mod::lemma_small_mod(s, group_order());
    }
}

/// Multiplication is commutative: `mul(x, y) == mul(y, x)`.
pub proof fn law_mul_commutes(x: [u64; 5], y: [u64; 5])
    ensures
        limbs_of((limbs_value(x) * limbs_value(y)) % group_order())
            == limbs_of((limbs_value(y) * limbs_value(x)) % group_order()),
{
    vstd::arithmetic::mul::lemma_mul_is_commutative(limbs_value(x) as int, limbs_value(y) as int);
}

/// Two scalars loaded from 32 bytes each have a product below 2^512, so
/// `mul` accepts every pair that `from_bytes` returns.
pub proof fn law_mul_accepts_loaded(x: [u64; 5], y: [u64; 5])
    requires
        limbs_256(x),
        limbs_256(y),
    ensures
        limbs_value(x) * limbs_value(y) < 0x100000000000000000000000000000000000000000000000000000000000000000000000000000000000000000000000000000000000000000000000000000000int,
{
    let xv = limbs_value(x) as int;
    let yv = limbs_value(y) as int;
    let p256 = 0x10000000000000000000000000000000000000000000000000000000000000000int;
    assert(xv < p256 && yv < p256);
    assert(0 <= xv < p256 && 0 <= yv < p256 ==> xv * yv < p256 * p256) by (nonlinear_arith);
}

/// Adding the residues of a·b and c modulo l and subtracting l once if the
/// sum reaches l gives (a·b + c) mod l, for every a, b and c.
pub proof fn law_muladd_is_modular(a: nat, b: nat, c: nat)
    ensures
        sub_order_once((a * b) % group_order() + c % group_order()) == (a * b + c) % group_order(),
{
    let l = group_order() as int;
    let p = (a * b) as int;
    let c = c as int;
    vstd::arithmetic::div_mod::lemma_fundamental_div_mod(p, l);
    vstd::arithmetic::div_mod::lemma_fundamental_div_mod(c, l);
    let s = p % l + c % l;
    if s >= l {
        vstd::arithmetic::div_mod::lemma_fundamental_div_mod_converse(p + c, l, p / l + c / l + 1, s - l);
    } else {
        vstd::arithmetic::div_mod::lemma_fundamental_div_mod_converse(p + c, l, p / l + c / l, s);
    }
}

} // verus!
