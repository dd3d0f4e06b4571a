//! Seeded, stateless pseudorandom decisions.
use vstd::prelude::*;

verus! {

/// Probabilities are written in parts per million.
pub const PPM: u32 = 1000000;

pub open spec fn khash_spec(x: u32) -> u32 {
    let a = x ^ (x << 13u32);
    let b = a ^ (a >> 17u32);
    b ^ (b << 5u32)
}

pub open spec fn hash2_spec(seed: u32, idx: u32) -> u32 {
    khash_spec(seed ^ khash_spec(idx ^ 0x9e3779b9u32))
}

pub open spec fn roll_spec(seed: u32, idx: u32) -> u32 {
    hash2_spec(seed, idx) % PPM
}

/// xorshift mixing of one word.
pub fn khash(x: u32) -> (r: u32)
    ensures
        r == khash_spec(x),
{
    let a = x ^ (x << 13u32);
    let b = a ^ (a >> 17u32);
    b ^ (b << 5u32)
}

/// Hash of a seed together with an index, such as a spawn point's.
pub fn hash2(seed: u32, idx: u32) -> (r: u32)
    ensures
        r == hash2_spec(seed, idx),
{
    khash(seed ^ khash(idx ^ 0x9e3779b9u32))
}

/// A value in `[0, PPM)` drawn from `(seed, idx)`.
pub fn roll(seed: u32, idx: u32) -> (r: u32)
    ensures
        r == roll_spec(seed, idx),
        r < PPM,
{
    hash2(seed, idx) % PPM
}

/// Whether the draw for `(seed, idx)` falls below the probability `prob_ppm`.
pub fn chance(seed: u32, idx: u32, prob_ppm: u32) -> (r: bool)
    ensures
        r == (roll_spec(seed, idx) < prob_ppm),
{
    roll(seed, idx) < prob_ppm
}

/// A value in `[lo, hi)` drawn from `(seed, idx)`.
pub fn uniform(seed: u32, idx: u32, lo: i64, hi: i64) -> (r: i64)
    requires
        lo < hi,
        hi - lo <= 0xffff_ffff,
    ensures
        r == lo + (hash2_spec(seed, idx) as int) % ((hi - lo) as int),
        lo <= r < hi,
{
    let span = (hi - lo) as u64;
    let h = hash2(seed, idx) as u64;
    lo + (h % span) as i64
}

} // verus!
