use vstd::prelude::*;
use crate::dpad::Dpad;

verus! {

/// Something a hand can hold.
#[derive(Clone, Copy, Debug, PartialEq, Eq, Structural)]
pub enum Item {
    Axe,
    Berry,
    /// A bottle, full or empty.
    Bottle(bool),
}

/// The four hands, one per direction of the pad; each holds at most one item.
#[derive(Clone, Copy, Debug, PartialEq, Eq, Structural)]
pub struct Hands {
    pub up: Option<Item>,
    pub down: Option<Item>,
    pub left: Option<Item>,
    pub right: Option<Item>,
}

impl Hands {
    /// What the hand `d` holds.
    pub open spec fn at(self, d: Dpad) -> Option<Item> {
        match d {
            Dpad::Up => self.up,
            Dpad::Down => self.down,
            Dpad::Left => self.left,
            Dpad::Right => self.right,
        }
    }

    /// These hands with `item` in hand `d`.
    pub open spec fn put(self, d: Dpad, item: Option<Item>) -> Hands {
        match d {
            Dpad::Up => Hands { up: item, ..self },
            Dpad::Down => Hands { down: item, ..self },
            Dpad::Left => Hands { left: item, ..self },
            Dpad::Right => Hands { right: item, ..self },
        }
    }

    /// Four empty hands.
    pub fn empty() -> (r: Hands)
        ensures
            forall|d: Dpad| r.at(d) is None,
    {
        Hands { up: None, down: None, left: None, right: None }
    }

    pub fn get(&self, d: Dpad) -> (r: Option<Item>)
        ensures
            r == self.at(d),
    {
        match d {
            Dpad::Up => self.up,
            Dpad::Down => self.down,
            Dpad::Left => self.left,
            Dpad::Right => self.right,
        }
    }

    /// Puts `item` into hand `d` (or empties it, for `None`), leaving the
    /// other hands as they were.
    pub fn set(&mut self, d: Dpad, item: Option<Item>)
        ensures
            *final(self) == old(self).put(d, item),
            final(self).at(d) == item,
            forall|e: Dpad| e != d ==> final(self).at(e) == old(self).at(e),
    {
        match d {
            Dpad::Up => self.up = item,
            Dpad::Down => self.down = item,
            Dpad::Left => self.left = item,
            Dpad::Right => self.right = item,
        }
    }
}

} // verus!
