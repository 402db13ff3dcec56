//! The prey that lives on reefs.

use vstd::prelude::*;
use crate::crab::Crab;
use crate::diet::Diet;

verus! {

/// One piece of prey.
#[derive(Clone, Copy, Debug, PartialEq, Eq, Structural)]
pub enum Prey {
    /// A fish that outswims every hunter slower than itself.
    Minnow { speed: u32 },
    /// A shellfish that darts away as long as it has energy left, spending
    /// one unit on each escape.
    Shrimp { energy: u32 },
    /// A shellfish that cannot flee.
    Clam,
    /// A plant.
    Algae,
}

impl Prey {
    /// The diet category this prey belongs to.
    pub open spec fn spec_diet(self) -> Diet {
        match self {
            Prey::Minnow { .. } => Diet::Fish,
            Prey::Shrimp { .. } => Diet::Shellfish,
            Prey::Clam => Diet::Shellfish,
            Prey::Algae => Diet::Plants,
        }
    }

    /// Whether this prey gets away from a hunter of the given speed.
    pub open spec fn escapes(self, hunter_speed: u32) -> bool {
        match self {
            Prey::Minnow { speed } => speed > hunter_speed,
            Prey::Shrimp { energy } => energy > 0,
            Prey::Clam => false,
            Prey::Algae => false,
        }
    }

    /// The prey as one escape attempt leaves it: a shrimp that got away has
    /// spent one unit of energy, all other prey is as before.
    pub open spec fn after_attempt(self) -> Prey {
        match self {
            Prey::Shrimp { energy } if energy > 0 => Prey::Shrimp { energy: (energy - 1) as u32 },
            _ => self,
        }
    }

    /// A minnow of the given speed.
    pub fn minnow(speed: u32) -> (prey: Prey)
        ensures
            prey == (Prey::Minnow { speed }),
    {
        Prey::Minnow { speed }
    }

    /// A shrimp with the given energy.
    pub fn shrimp(energy: u32) -> (prey: Prey)
        ensures
            prey == (Prey::Shrimp { energy }),
    {
        Prey::Shrimp { energy }
    }

    /// A clam.
    pub fn clam() -> (prey: Prey)
        ensures
            prey == Prey::Clam,
    {
        Prey::Clam
    }

    /// A piece of algae.
    pub fn algae() -> (prey: Prey)
        ensures
            prey == Prey::Algae,
    {
        Prey::Algae
    }

    /// The diet category this prey belongs to.
    pub fn diet(&self) -> (diet: Diet)
        ensures
            diet == self.spec_diet(),
    {
        match self {
            Prey::Minnow { .. } => Diet::Fish,
            Prey::Shrimp { .. } => Diet::Shellfish,
            Prey::Clam => Diet::Shellfish,
            Prey::Algae => Diet::Plants,
        }
    }

    /// One escape attempt against the hunting crab. Returns whether the prey
    /// got away, and leaves the prey as the attempt changed it.
    pub fn try_escape(&mut self, crab: &Crab) -> (escaped: bool)
        ensures
            escaped == old(self).escapes(crab@.speed),
            *final(self) == old(self).after_attempt(),
    {
        let hunter_speed = crab.speed();
        match *self {
            Prey::Minnow { speed } => speed > hunter_speed,
            Prey::Shrimp { energy } => {
                if energy > 0 {
                    *self = Prey::Shrimp { energy: energy - 1 };
                    true
                } else {
                    false
                }
            },
            Prey::Clam => false,
            Prey::Algae => false,
        }
    }
}

} // verus!
