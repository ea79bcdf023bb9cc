use vstd::prelude::*;

verus! {

/// rltk's xorshift random number generator, carried opaquely; the dungeon
/// generator and the spawners draw their randomness from it through the
/// wrappers below.
#[verifier::external_type_specification]
#[verifier::external_body]
pub struct ExRandomNumberGenerator(rltk::RandomNumberGenerator);

/// Relies on rltk's RandomNumberGenerator::range: a value at least `lo` and
/// strictly below `hi`; the call panics on an empty range, which the
/// precondition rules out.
#[verifier::external_body]
pub(crate) fn rng_range(rng: &mut rltk::RandomNumberGenerator, lo: i32, hi: i32) -> (r: i32)
    requires
        lo < hi,
    ensures
        lo <= r < hi,
{
    rng.range(lo, hi)
}

/// Relies on rltk's RandomNumberGenerator::roll_dice: the sum of `n` rolls of
/// a `die_type`-sided die, so between `n` and `n * die_type`. The bounds keep
/// the call's internal `die_type + 1` and its sum from overflowing.
#[verifier::external_body]
pub(crate) fn rng_roll_dice(rng: &mut rltk::RandomNumberGenerator, n: i32, die_type: i32) -> (r: i32)
    requires
        1 <= n,
        1 <= die_type < i32::MAX,
        n * die_type <= i32::MAX,
    ensures
        n <= r <= n * die_type,
{
    rng.roll_dice(n, die_type)
}

/// Relies on rltk's RandomNumberGenerator::rand at type bool: a coin flip.
#[verifier::external_body]
pub(crate) fn rng_coin(rng: &mut rltk::RandomNumberGenerator) -> bool {
    rng.rand::<bool>()
}

} // verus!
