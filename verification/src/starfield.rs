//! Deterministic pseudo-random hashing for starfield placement.
//!
//! Star positions, brightness and tint are derived from this hash of the
//! star's index, so the same sky is generated every frame with no hidden
//! state.

use vstd::prelude::*;

verus! {

/// Product of two 32-bit values, truncated to 32 bits.
pub open spec fn spec_mul32(a: u32, b: u32) -> u32 {
    ((a * b) % 0x1_0000_0000) as u32
}

/// One xor-shift mixing round.
pub open spec fn spec_hash_mix(x: u32) -> u32 {
    x ^ (x >> 16)
}

/// Three rounds of xor-shift mixing interleaved with two multiplications:
/// the full hash, as a mathematical function of the seed alone.
pub open spec fn spec_hash(seed: u32) -> u32 {
    spec_hash_mix(
        spec_mul32(spec_hash_mix(spec_mul32(spec_hash_mix(seed), 0x45d9f3b)), 0x45d9f3b),
    )
}

/// Multiplies two 32-bit values with wraparound, by widening to 64 bits.
fn mul32(a: u32, b: u32) -> (r: u32)
    ensures
        r == spec_mul32(a, b),
{
    proof {
        assert((a as int) * (b as int) < 0x1_0000_0000 * 0x1_0000_0000) by (nonlinear_arith)
            requires
                a < 0x1_0000_0000,
                b < 0x1_0000_0000,
        ;
    }
    let p: u64 = (a as u64) * (b as u64);
    (p % 0x1_0000_0000) as u32
}

/// Scrambles a seed into a pseudo-random 32-bit value. Deterministic:
/// the result is a pure function of the seed, so equal seeds always give
/// equal hashes.
pub fn hash(seed: u32) -> (r: u32)
    ensures
        r == spec_hash(seed),
{
    let mut x = seed;
    x = x ^ (x >> 16);
    x = mul32(x, 0x45d9f3b);
    x = x ^ (x >> 16);
    x = mul32(x, 0x45d9f3b);
    x = x ^ (x >> 16);
    x
}

} // verus!
