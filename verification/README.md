# Scalars modulo the curve25519 group order

Arithmetic modulo l = 2^252 + 27742317777372353535851937790883648493 on
scalars held as five limbs in radix 2^56, verified with Verus.

- `src/specs.rs`: the model (value of limbs, little-endian bytes, l).
- `src/scalar64.rs`: loading and storing bytes, addition, the schoolbook
  product, Barrett reduction of 512-bit numbers, and `muladd`.
- `src/barrett.rs`, `src/product.rs`, `src/lemmas.rs`: the proofs behind them.
- `src/laws.rs`: properties of the operations taken together.
