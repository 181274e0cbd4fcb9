use vstd::prelude::*;
use crate::dpad::Dpad;
use crate::geometry::{direction, direction_spec, div_trunc, in_bounds, is_isqrt, Vec2, MILLI};
use crate::item::{Hands, Item};

verus! {

/// A full stat. Stats count down in these units: sleep loses one per
/// millisecond, hunger two and thirst four, so that each empties from full
/// in 60, 30 and 15 seconds.
pub const STAT_FULL: u32 = 60_000;

/// Each component of a log-speed stays within this bound, in milli-units.
pub const SPEED_LIMIT: i64 = 2000;

/// A stat after `delta` milliseconds at `rate` units per millisecond.
pub open spec fn decayed(stat: u32, rate: int, delta: u32) -> u32 {
    if stat - rate * delta <= 0 {
        0
    } else {
        (stat - rate * delta) as u32
    }
}

/// A clock advanced by `delta` milliseconds; it stops at the largest value.
pub open spec fn advanced(t: u64, delta: u32) -> u64 {
    if t + delta > u64::MAX {
        u64::MAX
    } else {
        (t + delta) as u64
    }
}

pub open spec fn speed_in_range(v: Vec2) -> bool {
    -SPEED_LIMIT <= v.x <= SPEED_LIMIT && -SPEED_LIMIT <= v.y <= SPEED_LIMIT
}

/// `v` moved a fifth of the way toward `target`, each component truncated.
pub open spec fn damped(v: Vec2, target: Vec2) -> Vec2 {
    Vec2 {
        x: (v.x + div_trunc(target.x - v.x, 5)) as i64,
        y: (v.y + div_trunc(target.y - v.y, 5)) as i64,
    }
}

/// `w` is `v`, or, where `v`'s rounded-down length `n` is positive and below
/// one unit, `v` stretched to unit length.
pub open spec fn restretched_by(v: Vec2, w: Vec2, n: int) -> bool {
    &&& is_isqrt(v.x * v.x + v.y * v.y, n)
    &&& if n >= MILLI || n == 0 {
        w == v
    } else {
        w == direction_spec(v, n)
    }
}

pub open spec fn restretched(v: Vec2, w: Vec2) -> bool {
    exists|n: int| restretched_by(v, w, n)
}

/// A rested player facing up, with a full bottle in the left hand.
pub open spec fn fresh_player() -> Player {
    Player {
        hands: Hands { up: None, down: None, left: Some(Item::Bottle(true)), right: None },
        current_hand: Dpad::Up,
        log_speed: Vec2 { x: 0, y: -1000i64 },
        t: 0,
        thirst: STAT_FULL,
        hunger: STAT_FULL,
        sleep: STAT_FULL,
    }
}

/// `p` after `delta` milliseconds of need.
pub open spec fn tired(p: Player, delta: u32) -> Player {
    Player {
        sleep: decayed(p.sleep, 1, delta),
        hunger: decayed(p.hunger, 2, delta),
        thirst: decayed(p.thirst, 4, delta),
        ..p
    }
}

/// `p` with its thirst fully quenched.
pub open spec fn quenched(p: Player) -> Player {
    Player { thirst: STAT_FULL, ..p }
}

/// `p` with `d` as the active hand.
pub open spec fn with_hand(p: Player, d: Dpad) -> Player {
    Player { current_hand: d, ..p }
}

/// The sum of `deltas`.
pub open spec fn total(deltas: Seq<u32>) -> int
    decreases deltas.len(),
{
    if deltas.len() == 0 {
        0
    } else {
        deltas[0] + total(deltas.drop_first())
    }
}

/// `p` after ticks lasting `deltas`, with no action between them.
pub open spec fn tired_all(p: Player, deltas: Seq<u32>) -> Player
    decreases deltas.len(),
{
    if deltas.len() == 0 {
        p
    } else {
        tired_all(tired(p, deltas[0]), deltas.drop_first())
    }
}

/// Without actions, no stat ever rises or leaves its range, and each is
/// empty once the time that has passed would empty it: thirst loses four
/// units a millisecond, hunger two and sleep one.
pub proof fn lemma_decay_monotone(p: Player, deltas: Seq<u32>)
    requires
        p.wf(),
    ensures
        tired_all(p, deltas).wf(),
        tired_all(p, deltas).thirst <= p.thirst,
        tired_all(p, deltas).hunger <= p.hunger,
        tired_all(p, deltas).sleep <= p.sleep,
        4 * total(deltas) >= p.thirst ==> tired_all(p, deltas).thirst == 0,
        2 * total(deltas) >= p.hunger ==> tired_all(p, deltas).hunger == 0,
        total(deltas) >= p.sleep ==> tired_all(p, deltas).sleep == 0,
    decreases deltas.len(),
{
    if deltas.len() > 0 {
        lemma_decay_monotone(tired(p, deltas[0]), deltas.drop_first());
    }
}

/// The player: hands, active hand, log-speed (a heading whose length, in
/// milli-units, is the logarithm of the speed), animation clock and stats.
#[derive(Clone, Copy, Debug, PartialEq, Eq, Structural)]
pub struct Player {
    pub hands: Hands,
    pub current_hand: Dpad,
    pub log_speed: Vec2,
    /// Milliseconds since the player was made.
    pub t: u64,
    pub thirst: u32,
    pub hunger: u32,
    pub sleep: u32,
}

impl Player {
    pub open spec fn wf(self) -> bool {
        &&& self.thirst <= STAT_FULL
        &&& self.hunger <= STAT_FULL
        &&& self.sleep <= STAT_FULL
        &&& speed_in_range(self.log_speed)
    }

    /// A rested player facing up, with a full bottle in the left hand.
    pub fn new() -> (r: Player)
        ensures
            r == fresh_player(),
            r.wf(),
            r.hands.at(Dpad::Left) == Some(Item::Bottle(true)),
            forall|d: Dpad| d != Dpad::Left ==> r.hands.at(d) is None,
            r.current_hand == Dpad::Up,
            r.log_speed == (Vec2 { x: 0, y: -1000i64 }),
            r.t == 0,
            r.thirst == STAT_FULL && r.hunger == STAT_FULL && r.sleep == STAT_FULL,
    {
        let hands = Hands { up: None, down: None, left: Some(Item::Bottle(true)), right: None };
        Player {
            hands,
            current_hand: Dpad::Up,
            log_speed: Vec2 { x: 0, y: -MILLI },
            t: 0,
            thirst: STAT_FULL,
            hunger: STAT_FULL,
            sleep: STAT_FULL,
        }
    }

    /// Lets `delta` milliseconds of need pass: each stat goes down at its
    /// rate and stops at zero. Nothing else changes.
    pub fn decay(&mut self, delta: u32)
        requires
            old(self).wf(),
        ensures
            *final(self) == tired(*old(self), delta),
            final(self).wf(),
    {
        self.sleep = decay_stat(self.sleep, 1, delta);
        self.hunger = decay_stat(self.hunger, 2, delta);
        self.thirst = decay_stat(self.thirst, 4, delta);
    }

    /// The direction the player faces, in milli-units, if it has one.
    pub fn heading(&self) -> (r: Option<Vec2>)
        requires
            self.wf(),
        ensures
            match r {
                Some(d) => exists|n: int|
                    n > 0 && is_isqrt(self.log_speed.x * self.log_speed.x + self.log_speed.y
                        * self.log_speed.y, n) && d == direction_spec(self.log_speed, n)
                    && -MILLI <= d.x <= MILLI && -MILLI <= d.y <= MILLI,
                None => self.log_speed == (Vec2 { x: 0, y: 0 }),
            },
    {
        match direction(self.log_speed) {
            Some((d, _)) => Some(d),
            None => None,
        }
    }

    /// One tick of steering: the clock advances by `delta`, the log-speed
    /// moves a fifth of the way toward `target`, and a log-speed shorter than
    /// one unit is stretched back to unit length along its direction.
    pub fn steer(&mut self, target: Vec2, delta: u32)
        requires
            old(self).wf(),
            speed_in_range(target),
        ensures
            final(self).wf(),
            final(self).t == advanced(old(self).t, delta),
            restretched(damped(old(self).log_speed, target), final(self).log_speed),
            final(self).hands == old(self).hands,
            final(self).current_hand == old(self).current_hand,
            final(self).thirst == old(self).thirst,
            final(self).hunger == old(self).hunger,
            final(self).sleep == old(self).sleep,
    {
        self.t = self.t.saturating_add(delta as u64);
        let v = Vec2 {
            x: self.log_speed.x + toward(self.log_speed.x, target.x),
            y: self.log_speed.y + toward(self.log_speed.y, target.y),
        };
        assert(in_bounds(v));
        match direction(v) {
            Some((d, n)) => {
                assert(v == damped(old(self).log_speed, target));
                if n < 1000 {
                    self.log_speed = d;
                } else {
                    self.log_speed = v;
                }
                assert(restretched_by(v, self.log_speed, n as int));
            },
            None => {
                assert(v == damped(old(self).log_speed, target));
                assert(is_isqrt(v.x * v.x + v.y * v.y, 0));
                self.log_speed = v;
                assert(restretched_by(v, self.log_speed, 0));
            },
        }
    }
}

/// A fifth of the way from `a` to `b`, truncated toward zero.
fn toward(a: i64, b: i64) -> (r: i64)
    requires
        -SPEED_LIMIT <= a <= SPEED_LIMIT,
        -SPEED_LIMIT <= b <= SPEED_LIMIT,
    ensures
        r == div_trunc(b - a, 5),
        -SPEED_LIMIT <= a + r <= SPEED_LIMIT,
{
    let d: i64 = b - a;
    if d >= 0 {
        d / 5
    } else {
        -((-d) / 5)
    }
}

fn decay_stat(stat: u32, rate: u32, delta: u32) -> (r: u32)
    requires
        1 <= rate <= 4,
    ensures
        r == decayed(stat, rate as int, delta),
{
    assert(rate as u64 * delta as u64 <= 4 * 0xffff_ffffu64) by (nonlinear_arith)
        requires
            1 <= rate <= 4,
    ;
    let loss: u64 = rate as u64 * delta as u64;
    if loss >= stat as u64 {
        0
    } else {
        (stat as u64 - loss) as u32
    }
}

} // verus!
