//! Prey: a closed set of kinds, each with its diet classification and its
//! escape behavior. The escape outcome may depend on the hunting crab.

use vstd::prelude::*;
use crate::crab::Crab;
use crate::diet::Diet;

verus! {

/// One resident of a reef. Each kind fixes a diet classification and an
/// escape rule: seaweed and clams never get away, a minnow outswims any crab
/// that is not strictly faster than it, and a jellyfish always slips free.
#[derive(Clone, Copy, Debug, PartialEq, Eq, Structural)]
pub enum Prey {
    Seaweed,
    Clam,
    Minnow { speed: u32 },
    Jellyfish,
}

impl Prey {
    /// The diet this prey counts as.
    pub open spec fn spec_diet(self) -> Diet {
        match self {
            Prey::Seaweed => Diet::Plants,
            Prey::Clam => Diet::Shellfish,
            Prey::Minnow { .. } => Diet::Fish,
            Prey::Jellyfish => Diet::Fish,
        }
    }

    /// Whether this prey gets away from the given hunter.
    pub open spec fn spec_escapes(self, hunter: Crab) -> bool {
        match self {
            Prey::Seaweed => false,
            Prey::Clam => false,
            Prey::Minnow { speed } => speed >= hunter@.speed,
            Prey::Jellyfish => true,
        }
    }

    /// Reports the diet classification of this prey.
    pub fn diet(&self) -> (d: Diet)
        ensures
            d == self.spec_diet(),
    {
        match self {
            Prey::Seaweed => Diet::Plants,
            Prey::Clam => Diet::Shellfish,
            Prey::Minnow { .. } => Diet::Fish,
            Prey::Jellyfish => Diet::Fish,
        }
    }

    /// Plays out one capture attempt: true exactly when this prey evades the
    /// given hunter.
    pub fn try_escape(&self, hunter: &Crab) -> (b: bool)
        ensures
            b == self.spec_escapes(*hunter),
    {
        match self {
            Prey::Seaweed => false,
            Prey::Clam => false,
            Prey::Minnow { speed } => *speed >= hunter.speed(),
            Prey::Jellyfish => true,
        }
    }
}

} // verus!
