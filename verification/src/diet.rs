//! Diet categories of crabs, prey and recipes.

use vstd::prelude::*;

verus! {

/// What a crab eats, what a prey counts as, and what a recipe calls for.
#[derive(Clone, Copy, Debug, PartialEq, Eq, Structural)]
pub enum Diet {
    Fish,
    Plants,
    Shellfish,
}

/// Number of diet categories.
pub const DIET_COUNT: u32 = 3;

/// Calls `rand::thread_rng()` and `rand::Rng::gen_range` with the range
/// `0..bound`. The contract claims only what rand documents of every draw
/// from a non-empty half-open range: the value lies in the range. Nothing is
/// claimed about which value comes out, so two calls may differ. An empty
/// range, on which `gen_range` panics, is ruled out. The generator of a
/// thread is seeded from the operating system at its first use and seeded
/// anew from time to time, and panics where the operating system gives it
/// nothing to seed from: nothing a caller passes in decides that.
#[verifier::external_body]
fn random_below(bound: u32) -> (drawn: u32)
    requires
        bound > 0,
    ensures
        drawn < bound,
{
    rand::Rng::gen_range(&mut rand::thread_rng(), 0..bound)
}

impl Diet {
    /// The category at position `index` of the list fish, plants, shellfish;
    /// every position past the end stands for the last category.
    pub open spec fn spec_from_index(index: u32) -> Diet {
        if index == 0 {
            Diet::Fish
        } else if index == 1 {
            Diet::Plants
        } else {
            Diet::Shellfish
        }
    }

    /// Executable form of [`Diet::spec_from_index`].
    pub fn from_index(index: u32) -> (diet: Diet)
        ensures
            diet == Diet::spec_from_index(index),
    {
        if index == 0 {
            Diet::Fish
        } else if index == 1 {
            Diet::Plants
        } else {
            Diet::Shellfish
        }
    }

    /// A category drawn at random, each with the same chance: the category
    /// at a position drawn below [`DIET_COUNT`]. The draw alone decides which.
    pub fn random_diet() -> (diet: Diet)
        ensures
            exists|drawn: u32|
                drawn < DIET_COUNT && diet == #[trigger] Diet::spec_from_index(drawn),
    {
        let drawn = random_below(DIET_COUNT);
        Diet::from_index(drawn)
    }
}

} // verus!
