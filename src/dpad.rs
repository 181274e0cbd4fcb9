use vstd::prelude::*;
use crate::geometry::{Vec2, MILLI};

verus! {

/// One of the four directions of a directional pad; it also names a hand.
#[derive(Clone, Copy, Debug, PartialEq, Eq, Structural)]
pub enum Dpad {
    Up,
    Down,
    Left,
    Right,
}

pub open spec fn dpad_vector(d: Dpad) -> Vec2 {
    match d {
        Dpad::Up => Vec2 { x: 0, y: -1000i64 },
        Dpad::Down => Vec2 { x: 0, y: MILLI },
        Dpad::Left => Vec2 { x: -1000i64, y: 0 },
        Dpad::Right => Vec2 { x: MILLI, y: 0 },
    }
}

impl Dpad {
    /// The unit vector of this direction, in milli-units; `y` grows downward.
    pub fn vector(self) -> (r: Vec2)
        ensures
            r == dpad_vector(self),
    {
        match self {
            Dpad::Up => Vec2 { x: 0, y: -MILLI },
            Dpad::Down => Vec2 { x: 0, y: MILLI },
            Dpad::Left => Vec2 { x: -MILLI, y: 0 },
            Dpad::Right => Vec2 { x: MILLI, y: 0 },
        }
    }
}

} // verus!
