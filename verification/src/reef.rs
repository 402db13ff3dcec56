//! Reefs: where prey waits to be taken.

use vstd::prelude::*;
use std::collections::VecDeque;
use crate::prey::Prey;

verus! {

/// A queue of prey. Prey is taken from the front and put back at the end.
#[derive(Debug)]
pub struct Reef {
    prey: VecDeque<Prey>,
}

impl View for Reef {
    type V = Seq<Prey>;

    /// The prey on the reef, the next one to be taken first.
    closed spec fn view(&self) -> Seq<Prey> {
        self.prey@
    }
}

impl Reef {
    /// A reef without prey.
    pub fn new() -> (reef: Reef)
        ensures
            reef@ == Seq::<Prey>::empty(),
    {
        Reef { prey: VecDeque::new() }
    }

    /// The number of prey on the reef.
    pub fn population(&self) -> (n: usize)
        ensures
            n == self@.len(),
    {
        self.prey.len()
    }

    /// Puts one piece of prey on the reef, behind all that is there.
    pub fn add_prey(&mut self, prey: Prey)
        ensures
            final(self)@ == old(self)@.push(prey),
    {
        self.prey.push_back(prey);
    }

    /// Takes the piece of prey at the front, if the reef has any.
    pub fn take_prey(&mut self) -> (taken: Option<Prey>)
        ensures
            match taken {
                Some(prey) => {
                    &&& old(self)@.len() > 0
                    &&& prey == old(self)@[0]
                    &&& final(self)@ == old(self)@.drop_first()
                },
                None => {
                    &&& old(self)@.len() == 0
                    &&& final(self)@ == old(self)@
                },
            },
    {
        self.prey.pop_front()
    }
}

} // verus!
