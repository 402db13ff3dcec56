//! The ocean: beaches, and the table of reefs that crabs hunt on.

use vstd::prelude::*;
use vstd::std_specs::iter::IteratorSpec;
use std::slice::Iter;
use crate::beach::Beach;
use crate::hunting::reef_views;
use crate::prey::Prey;
use crate::reef::Reef;

verus! {

/// The speed of the minnows on a generated reef.
pub const MINNOW_SPEED: u32 = 25;

/// The energy of the shrimp on a generated reef.
pub const SHRIMP_ENERGY: u32 = 1;

/// An ocean as contracts see it.
pub struct OceanView {
    /// The beaches, in the order in which they were added.
    pub beaches: Seq<Beach>,
    /// The table of reefs, in the order in which they were generated; each
    /// reef is its prey, the next one to be taken first.
    pub reefs: Seq<Seq<Prey>>,
}

/// `count` pieces of the same prey.
pub open spec fn shoal(prey: Prey, count: nat) -> Seq<Prey> {
    Seq::new(count, |i: int| prey)
}

/// The prey on a generated reef: the minnows first, then the shrimp, the
/// clams and the algae.
pub open spec fn reef_stock(
    n_minnows: nat,
    n_shrimp: nat,
    n_clams: nat,
    n_algae: nat,
) -> Seq<Prey> {
    shoal(Prey::Minnow { speed: MINNOW_SPEED }, n_minnows) + shoal(
        Prey::Shrimp { energy: SHRIMP_ENERGY },
        n_shrimp,
    ) + shoal(Prey::Clam, n_clams) + shoal(Prey::Algae, n_algae)
}

/// Puts `count` pieces of the same prey on the reef.
fn stock(reef: &mut Reef, prey: Prey, count: u32)
    ensures
        final(reef)@ == old(reef)@ + shoal(prey, count as nat),
{
    let mut i: u32 = 0;
    while i < count
        invariant
            i <= count,
            reef@ == old(reef)@ + shoal(prey, i as nat),
        decreases count - i,
    {
        reef.add_prey(prey);
        i += 1;
    }
}

/// An ocean.
#[derive(Debug)]
pub struct Ocean {
    beaches: Vec<Beach>,
    reefs: Vec<Reef>,
}

impl View for Ocean {
    type V = OceanView;

    closed spec fn view(&self) -> OceanView {
        OceanView { beaches: self.beaches@, reefs: reef_views(self.reefs@) }
    }
}

impl Ocean {
    /// An ocean without beaches or reefs.
    pub fn new() -> (ocean: Ocean)
        ensures
            ocean@.beaches == Seq::<Beach>::empty(),
            ocean@.reefs == Seq::<Seq<Prey>>::empty(),
    {
        let ocean = Ocean { beaches: Vec::new(), reefs: Vec::new() };
        ocean
    }

    /// Adds a beach behind all others.
    pub fn add_beach(&mut self, beach: Beach)
        ensures
            final(self)@.beaches == old(self)@.beaches.push(beach),
            final(self)@.reefs == old(self)@.reefs,
    {
        self.beaches.push(beach);
    }

    /// The beaches, in the order in which they were added.
    pub fn beaches(&self) -> (beaches: Iter<'_, Beach>)
        ensures
            beaches.remaining().unref() == self@.beaches,
    {
        self.beaches.iter()
    }

    /// The reefs, in the order in which they were generated.
    pub fn reefs(&self) -> (reefs: Iter<'_, Reef>)
        ensures
            reef_views(reefs.remaining().unref()) == self@.reefs,
    {
        self.reefs.iter()
    }

    /// The table of reefs, for crabs to hunt on and for prey to be taken
    /// from or put on single reefs. The table can be changed reef by reef;
    /// no reef can be added to it or removed from it this way.
    pub fn reefs_mut(&mut self) -> (reefs: &mut [Reef])
        ensures
            reef_views(reefs@) == old(self)@.reefs,
            final(self)@.reefs == reef_views(final(reefs)@),
            final(self)@.beaches == old(self)@.beaches,
    {
        self.reefs.as_mut_slice()
    }

    /// Generates a reef with the given numbers of minnows, shrimp, clams and
    /// algae, the minnows of speed [`MINNOW_SPEED`] and the shrimp of energy
    /// [`SHRIMP_ENERGY`], and adds it to the table of reefs behind all
    /// others. Returns the position of the new reef in the table, by which
    /// crabs can discover it.
    pub fn generate_reef(
        &mut self,
        n_minnows: u32,
        n_shrimp: u32,
        n_clams: u32,
        n_algae: u32,
    ) -> (reef: usize)
        ensures
            reef == old(self)@.reefs.len(),
            final(self)@.reefs == old(self)@.reefs.push(
                reef_stock(n_minnows as nat, n_shrimp as nat, n_clams as nat, n_algae as nat),
            ),
            final(self)@.beaches == old(self)@.beaches,
    {
        let mut r = Reef::new();
        stock(&mut r, Prey::minnow(MINNOW_SPEED), n_minnows);
        stock(&mut r, Prey::shrimp(SHRIMP_ENERGY), n_shrimp);
        stock(&mut r, Prey::clam(), n_clams);
        stock(&mut r, Prey::algae(), n_algae);
        let reef = self.reefs.len();
        self.reefs.push(r);
        reef
    }
}

/// A generated reef holds as many pieces of prey as were asked for.
pub proof fn lemma_reef_stock_population(n_minnows: nat, n_shrimp: nat, n_clams: nat, n_algae: nat)
    ensures
        reef_stock(n_minnows, n_shrimp, n_clams, n_algae).len() == n_minnows + n_shrimp + n_clams
            + n_algae,
{
}

} // verus!
