use vstd::prelude::*;
use crate::geometry::Vec2;
use crate::item::Item;
use crate::player::Player;
use crate::world::{water_ahead, World};

verus! {

/// The colours of the interface; their shades are the renderer's business.
#[derive(Clone, Copy, Debug, PartialEq, Eq, Structural)]
pub enum UIPalette {
    SelectorBack,
    SelectorFront,
    /// Button A, pressed or not.
    ButtonA(bool),
    /// Button B, pressed or not.
    ButtonB(bool),
    Text,
    StatIndicatorBack,
    StatIndicatorSleep,
    StatIndicatorThirst,
    StatIndicatorHunger,
}

/// A controller button as shown on screen.
#[derive(Clone, Copy, Debug, PartialEq, Eq, Structural)]
pub struct Button {
    pub is_a: bool,
    pub pressed: bool,
}

impl Button {
    pub fn a() -> (r: Button)
        ensures
            r.is_a && !r.pressed,
    {
        Button { is_a: true, pressed: false }
    }

    pub fn b() -> (r: Button)
        ensures
            !r.is_a && !r.pressed,
    {
        Button { is_a: false, pressed: false }
    }
}

/// A gauge of one of the player's stats, holding the copy of the player it
/// shows.
#[derive(Clone, Copy, Debug, PartialEq, Eq, Structural)]
pub enum StatIndicator {
    Sleep(Player),
    Thirst(Player),
    Hunger(Player),
}

impl StatIndicator {
    /// The stat shown, in `STAT_FULL`-ths.
    pub fn stat(&self) -> (r: u32)
        ensures
            r == match *self {
                StatIndicator::Sleep(p) => p.sleep,
                StatIndicator::Thirst(p) => p.thirst,
                StatIndicator::Hunger(p) => p.hunger,
            },
    {
        match self {
            StatIndicator::Sleep(p) => p.sleep,
            StatIndicator::Thirst(p) => p.thirst,
            StatIndicator::Hunger(p) => p.hunger,
        }
    }

    /// The colour of the gauge: one per stat.
    pub fn color(&self) -> (r: UIPalette)
        ensures
            r == match *self {
                StatIndicator::Sleep(_) => UIPalette::StatIndicatorSleep,
                StatIndicator::Thirst(_) => UIPalette::StatIndicatorThirst,
                StatIndicator::Hunger(_) => UIPalette::StatIndicatorHunger,
            },
    {
        match self {
            StatIndicator::Sleep(_) => UIPalette::StatIndicatorSleep,
            StatIndicator::Thirst(_) => UIPalette::StatIndicatorThirst,
            StatIndicator::Hunger(_) => UIPalette::StatIndicatorHunger,
        }
    }

    /// Shows `player` from now on; the stat shown stays the same kind.
    pub fn set_player(&mut self, player: &Player)
        ensures
            *final(self) == match *old(self) {
                StatIndicator::Sleep(_) => StatIndicator::Sleep(*player),
                StatIndicator::Thirst(_) => StatIndicator::Thirst(*player),
                StatIndicator::Hunger(_) => StatIndicator::Hunger(*player),
            },
    {
        match self {
            StatIndicator::Sleep(p) => *p = *player,
            StatIndicator::Thirst(p) => *p = *player,
            StatIndicator::Hunger(p) => *p = *player,
        }
    }
}

/// The texts that the screen shows.
#[derive(Clone, Copy, Debug, PartialEq, Eq, Structural)]
pub enum Text {
    ButtonA,
    ButtonB,
    DrinkBottle,
    FillBottle,
    PickUp,
}

impl Text {
    pub fn str(&self) -> (r: &'static str)
        ensures
            r@ == match *self {
                Text::ButtonA => "A"@,
                Text::ButtonB => "B"@,
                _ => "..."@,
            },
    {
        match self {
            Text::ButtonA => "A",
            Text::ButtonB => "B",
            _ => "...",
        }
    }

    /// The width of the text on screen, in pixels.
    pub fn width(&self) -> (r: u32)
        ensures
            r == match *self {
                Text::ButtonA => 10u32,
                Text::ButtonB => 11u32,
                _ => 20u32,
            },
    {
        match self {
            Text::ButtonA => 10,
            Text::ButtonB => 11,
            _ => 20,
        }
    }
}

impl Text {
    /// The offset from the text's top-left corner to its centre, in
    /// thousandths of a pixel: half its width across, eight pixels down.
    pub fn center(&self) -> (r: Vec2)
        ensures
            r.x == 500 * match *self {
                Text::ButtonA => 10int,
                Text::ButtonB => 11int,
                _ => 20int,
            },
            r.y == 8000,
    {
        Vec2 { x: self.width() as i64 * 500, y: 8000 }
    }
}

impl Item {
    /// What using the item would do, as a hint: drink from a full bottle,
    /// fill an empty one where there is water ahead; nothing otherwise.
    pub fn action_tooltip(self, world: &World) -> (r: Option<Text>)
        requires
            world.wf(),
        ensures
            r == match self {
                Item::Bottle(true) => Some(Text::DrinkBottle),
                Item::Bottle(false) => if water_ahead(*world) {
                    Some(Text::FillBottle)
                } else {
                    None
                },
                _ => None,
            },
    {
        match self {
            Item::Bottle(full) => {
                if full {
                    Some(Text::DrinkBottle)
                } else if world.water_in_front_of_player() {
                    Some(Text::FillBottle)
                } else {
                    None
                }
            },
            _ => None,
        }
    }
}

} // verus!
