//! Diet classifications shared by crabs and their prey.

use vstd::prelude::*;

verus! {

/// What a crab prefers to eat, and what a prey counts as.
#[derive(Clone, Copy, Debug, PartialEq, Eq, Structural)]
pub enum Diet {
    Plants,
    Fish,
    Shellfish,
}

/// Relies on rand::random: draws an arbitrary byte; nothing is promised of
/// its value.
#[verifier::external_body]
fn random_byte() -> u8 {
    rand::random::<u8>()
}

impl Diet {
    /// Draws a fresh diet for a newly bred crab. The outcome is random, so
    /// nothing is promised about which variant comes back.
    pub fn random_diet() -> Diet {
        let b = random_byte();
        let r = b % 3;
        if r == 0 {
            Diet::Plants
        } else if r == 1 {
            Diet::Fish
        } else {
            Diet::Shellfish
        }
    }
}

} // verus!
