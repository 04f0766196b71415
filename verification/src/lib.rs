//! Arithmetic modulo the order l of the curve25519 prime-order subgroup, on
//! scalars held as five limbs in radix 2^56, with Barrett reduction.
pub mod specs;
pub mod lemmas;
pub mod barrett;
pub mod product;
pub mod scalar64;
pub mod laws;
