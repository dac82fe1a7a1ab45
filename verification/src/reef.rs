//! A reef: a shared pool of prey. Crabs reach a reef through its index in an
//! arena (`Vec<Reef>`), so every holder of the index observes the same
//! mutations. A reef is viewed as the sequence of its resident prey.

use vstd::prelude::*;
use crate::prey::Prey;

verus! {

/// A pool of currently resident prey.
#[derive(Debug)]
pub struct Reef {
    prey: Vec<Prey>,
}

impl View for Reef {
    type V = Seq<Prey>;

    closed spec fn view(&self) -> Seq<Prey> {
        self.prey@
    }
}

impl Reef {
    /// An empty reef.
    pub fn new() -> (r: Reef)
        ensures
            r@ =~= Seq::<Prey>::empty(),
    {
        Reef { prey: Vec::new() }
    }

    /// How many prey are currently resident.
    pub fn population(&self) -> (n: usize)
        ensures
            n == self@.len(),
    {
        self.prey.len()
    }

    /// Removes and returns one resident prey, the most recently added one,
    /// or reports `None` when the reef is empty. Emptiness is a normal
    /// outcome, not a failure.
    pub fn take_prey(&mut self) -> (r: Option<Prey>)
        ensures
            old(self)@.len() == 0 ==> r is None && final(self)@ == old(self)@,
            old(self)@.len() > 0 ==> r == Some(old(self)@.last()) && final(self)@ == old(self)@.drop_last(),
    {
        self.prey.pop()
    }

    /// Returns a prey to this reef's resident pool. Never fails.
    pub fn add_prey(&mut self, p: Prey)
        ensures
            final(self)@ == old(self)@.push(p),
    {
        self.prey.push(p);
    }
}

} // verus!
