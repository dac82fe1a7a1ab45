//! Crab shell colors and the color mixing used by breeding.

use vstd::prelude::*;

verus! {

/// A crab's shell color: the three primaries and the three secondaries.
#[derive(Clone, Copy, Debug, PartialEq, Eq, Structural)]
pub enum Color {
    Red,
    Yellow,
    Blue,
    Orange,
    Green,
    Purple,
}

/// The color an offspring inherits: two equal parents pass their color on,
/// two distinct primaries mix into the secondary between them, and any other
/// pairing keeps the first parent's color.
pub open spec fn cross_spec(a: Color, b: Color) -> Color {
    if a == b {
        a
    } else if (a == Color::Red && b == Color::Yellow) || (a == Color::Yellow && b == Color::Red) {
        Color::Orange
    } else if (a == Color::Red && b == Color::Blue) || (a == Color::Blue && b == Color::Red) {
        Color::Purple
    } else if (a == Color::Yellow && b == Color::Blue) || (a == Color::Blue && b == Color::Yellow) {
        Color::Green
    } else {
        a
    }
}

impl Color {
    /// Mixes two parent colors into the offspring's color.
    pub fn cross(a: &Color, b: &Color) -> (c: Color)
        ensures
            c == cross_spec(*a, *b),
    {
        if *a == *b {
            *a
        } else if (*a == Color::Red && *b == Color::Yellow) || (*a == Color::Yellow && *b == Color::Red) {
            Color::Orange
        } else if (*a == Color::Red && *b == Color::Blue) || (*a == Color::Blue && *b == Color::Red) {
            Color::Purple
        } else if (*a == Color::Yellow && *b == Color::Blue) || (*a == Color::Blue && *b == Color::Yellow) {
            Color::Green
        } else {
            *a
        }
    }
}

} // verus!
