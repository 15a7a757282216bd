use vstd::prelude::*;

verus! {

/// The Goldilocks prime p = 2^64 - 2^32 + 1, the modulus shared by both backends.
pub const GOLDILOCKS_P: u64 = 0xffff_ffff_0000_0001;

/// Canonical representative of an integer in the Goldilocks field.
pub open spec fn field_reduce(i: int) -> int {
    i % (GOLDILOCKS_P as int)
}

/// Value of an accumulator seeded with `a` after `n` field multiplications by `b`.
pub open spec fn mul_chain(a: u64, b: u64, n: nat) -> int
    decreases n,
{
    if n == 0 {
        a as int
    } else {
        field_reduce(mul_chain(a, b, (n - 1) as nat) * (b as int))
    }
}

} // verus!
