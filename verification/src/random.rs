//! The random draws that generation makes, through `rand`'s standard generator.
use rand::rngs::StdRng;
use rand::{RngExt, SeedableRng};
use vstd::prelude::*;

verus! {

#[verifier::external_type_specification]
#[verifier::external_body]
pub struct ExStdRng(StdRng);

/// `rand::SeedableRng::seed_from_u64`: the standard generator started from a seed.
#[verifier::external_body]
pub(crate) fn seeded_rng(seed: u64) -> StdRng {
    StdRng::seed_from_u64(seed)
}

/// `rand::RngExt::random_range` over `0..=u64::MAX` with a generator that the operating
/// system seeds: any `u64`.
#[verifier::external_body]
pub(crate) fn fresh_seed() -> u64 {
    rand::rng().random_range(0..=u64::MAX)
}

/// `rand::RngExt::random_range` over the `u8` values `lo..=hi`: one of them.
#[verifier::external_body]
pub(crate) fn random_u8_in(rng: &mut StdRng, lo: u8, hi: u8) -> (r: u8)
    requires
        lo <= hi,
    ensures
        lo <= r <= hi,
{
    rng.random_range(lo..=hi)
}

/// `rand::RngExt::random_range` over the `u16` values `lo..=hi`: one of them.
#[verifier::external_body]
pub(crate) fn random_u16_in(rng: &mut StdRng, lo: u16, hi: u16) -> (r: u16)
    requires
        lo <= hi,
    ensures
        lo <= r <= hi,
{
    rng.random_range(lo..=hi)
}

/// `rand::RngExt::random_range` over the `i32` values `lo..=hi`: one of them.
#[verifier::external_body]
pub(crate) fn random_i32_in(rng: &mut StdRng, lo: i32, hi: i32) -> (r: i32)
    requires
        lo <= hi,
    ensures
        lo <= r <= hi,
{
    rng.random_range(lo..=hi)
}

/// `rand::RngExt::random_range` over the indices `0..len`: one of them.
#[verifier::external_body]
pub(crate) fn random_index(rng: &mut StdRng, len: usize) -> (r: usize)
    requires
        len > 0,
    ensures
        r < len,
{
    rng.random_range(0..len)
}

/// `rand::RngExt::random_ratio`: `true` with chance `numerator` in `denominator`;
/// always `false` for a numerator of 0 and always `true` where it equals the denominator.
#[verifier::external_body]
pub(crate) fn random_ratio(rng: &mut StdRng, numerator: u32, denominator: u32) -> (r: bool)
    requires
        0 < denominator,
        numerator <= denominator,
    ensures
        numerator == 0 ==> !r,
        numerator == denominator ==> r,
{
    rng.random_ratio(numerator, denominator)
}

} // verus!
