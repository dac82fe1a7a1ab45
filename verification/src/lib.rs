//! A small ecosystem library: crabs hunt prey held in shared reefs, and a
//! clan system groups crab snapshots and ranks clans by performance.
//!
//! Reefs are shared between crabs through an arena: a beach (or a test) owns a
//! `Vec<Reef>`, and each crab keeps the indices of the reefs it feeds from, so
//! that two crabs holding the same index observe the same mutations.

pub mod beach;
pub mod clans;
pub mod color;
pub mod cookbook;
pub mod crab;
pub mod diet;
pub mod prey;
pub mod reef;
