//! Mathematical model of scalars: limb arrays in radix 2^56, little-endian
//! byte strings, and the order `l` of the prime-order subgroup of curve25519.
use vstd::prelude::*;

verus! {

/// The group order l = 2^252 + 27742317777372353535851937790883648493.
pub open spec fn group_order() -> nat {
    7237005577332262213973186563042994240857116359379907606001950938285454250989nat
}

/// The number held by five limbs in radix 2^56:
/// l[0] + l[1]·2^56 + l[2]·2^112 + l[3]·2^168 + l[4]·2^224.
pub open spec fn limbs_value(l: [u64; 5]) -> nat {
    (l[0] as int
        + l[1] as int * 0x100000000000000int
        + l[2] as int * 0x10000000000000000000000000000int
        + l[3] as int * 0x1000000000000000000000000000000000000000000int
        + l[4] as int * 0x100000000000000000000000000000000000000000000000000000000int) as nat
}

/// The four low limbs are digits below 2^56; the top limb is unbounded.
pub open spec fn limbs_normalized(l: [u64; 5]) -> bool {
    &&& l[0] < 0x100000000000000
    &&& l[1] < 0x100000000000000
    &&& l[2] < 0x100000000000000
    &&& l[3] < 0x100000000000000
}

/// Normalized limbs whose value is below 2^256 (the top limb has 32 bits):
/// the form in which a 32-byte scalar is loaded.
pub open spec fn limbs_256(l: [u64; 5]) -> bool {
    limbs_normalized(l) && l[4] < 0x100000000
}

/// The normalized limbs of `n` (for `n < 2^288`).
pub open spec fn limbs_of(n: nat) -> [u64; 5] {
    let n = n as int;
    [
        (n % 0x100000000000000int) as u64,
        ((n / 0x100000000000000int) % 0x100000000000000int) as u64,
        ((n / 0x10000000000000000000000000000int) % 0x100000000000000int) as u64,
        ((n / 0x1000000000000000000000000000000000000000000int) % 0x100000000000000int) as u64,
        (n / 0x100000000000000000000000000000000000000000000000000000000int) as u64,
    ]
}

/// The number that Barrett reduction receives as a quotient estimate `q1`
/// (bits 248 and up) and a low part `r1` (bits 0 to 263, of which the bits
/// from 248 on repeat those of `q1`): q1·2^248 + (r1 mod 2^248).
pub open spec fn barrett_input(q1: [u64; 5], r1: [u64; 5]) -> nat {
    (limbs_value(q1) as int * 0x100000000000000000000000000000000000000000000000000000000000000int
        + r1[0] as int
        + r1[1] as int * 0x100000000000000int
        + r1[2] as int * 0x10000000000000000000000000000int
        + r1[3] as int * 0x1000000000000000000000000000000000000000000int
        + (r1[4] as int % 0x1000000) * 0x100000000000000000000000000000000000000000000000000000000int) as nat
}

/// One conditional subtraction of the group order.
pub open spec fn sub_order_once(v: nat) -> nat {
    if v >= group_order() {
        (v - group_order()) as nat
    } else {
        v
    }
}

/// The little-endian number held by the bytes of `s` from index `i` on.
pub open spec fn le_from(s: Seq<u8>, i: int) -> nat
    decreases s.len() - i,
{
    if i < 0 || i >= s.len() {
        0
    } else {
        s[i] as nat + 256 * le_from(s, i + 1)
    }
}

/// The little-endian number held by a byte string.
pub open spec fn le_bytes(s: Seq<u8>) -> nat {
    le_from(s, 0)
}

/// The 64-bit little-endian word held by the eight bytes of `s` at `ofs`.
pub open spec fn le_word(s: Seq<u8>, ofs: int) -> nat {
    s[ofs] as nat
        + s[ofs + 1] as nat * 0x100
        + s[ofs + 2] as nat * 0x10000
        + s[ofs + 3] as nat * 0x1000000
        + s[ofs + 4] as nat * 0x100000000
        + s[ofs + 5] as nat * 0x10000000000
        + s[ofs + 6] as nat * 0x1000000000000
        + s[ofs + 7] as nat * 0x100000000000000
}

} // verus!
