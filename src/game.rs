use vstd::prelude::*;
use crate::dpad::{dpad_vector, Dpad};
use crate::geometry::{div_trunc, in_bounds, lemma_isqrt_unique, Vec2, COORD_LIMIT};
use crate::item::Item;
use crate::player::{advanced, fresh_player, damped, quenched, restretched, restretched_by, with_hand, Player};
use crate::selector::{axis_in_range, halved, next_spec, Input, Selector, SelectorEvent, SelectorState};
use crate::ui::{Button, StatIndicator};
use crate::world::{facing, is_start_world, lemma_no_heading, lemma_one_heading, water_ahead, Entity, EntityKind, World};

verus! {

/// The controller as read on one tick: the levels of buttons A and B and the
/// pressed direction of the pad.
#[derive(Clone, Copy, Debug, PartialEq, Eq, Structural)]
pub struct Pad {
    pub a: bool,
    pub b: bool,
    pub dpad: Option<Dpad>,
}

/// `p` holding `item` in hand `d`.
pub open spec fn holding(p: Player, d: Dpad, item: Option<Item>) -> Player {
    Player { hands: p.hands.put(d, item), ..p }
}

/// The player of `w` after using the item in its active hand: nothing
/// happens with an empty hand; otherwise the item acts (see
/// `Item::do_action`) and the hand holds what it became.
pub open spec fn acted(w: World) -> Player {
    let p = w.player();
    match p.hands.at(p.current_hand) {
        None => p,
        Some(Item::Bottle(true)) => holding(quenched(p), p.current_hand, Some(Item::Bottle(false))),
        Some(Item::Bottle(false)) => holding(p, p.current_hand, Some(Item::Bottle(water_ahead(w)))),
        Some(i) => holding(p, p.current_hand, Some(i)),
    }
}

/// The direction of `v` (see `facing`), or nothing for a zero vector.
pub open spec fn heading_of(v: Vec2) -> Vec2 {
    if exists|d: Vec2| facing(v, d) {
        choose|d: Vec2| facing(v, d)
    } else {
        Vec2 { x: 0, y: 0 }
    }
}

/// Where the player steers toward: twice the pressed direction while the
/// selector is idle, and its own heading otherwise or with the pad released.
pub open spec fn steer_target(state: SelectorState, dpad: Option<Dpad>, v: Vec2) -> Vec2 {
    match dpad {
        Some(d) => if state == SelectorState::Idle {
            Vec2 { x: (2 * dpad_vector(d).x) as i64, y: (2 * dpad_vector(d).y) as i64 }
        } else {
            heading_of(v)
        },
        None => heading_of(v),
    }
}

/// `q` is `p` after one tick of steering toward `target` (see
/// `Player::steer`).
pub open spec fn steered(p: Player, target: Vec2, delta: u32, q: Player) -> bool {
    &&& q.t == advanced(p.t, delta)
    &&& restretched(damped(p.log_speed, target), q.log_speed)
    &&& q == Player { t: q.t, log_speed: q.log_speed, ..p }
}

/// A gauge showing `p` in place of whom it showed.
pub open spec fn showing(i: StatIndicator, p: Player) -> StatIndicator {
    match i {
        StatIndicator::Sleep(_) => StatIndicator::Sleep(p),
        StatIndicator::Thirst(_) => StatIndicator::Thirst(p),
        StatIndicator::Hunger(_) => StatIndicator::Hunger(p),
    }
}

/// Half the screen, in micro-units: the camera keeps the player at its centre.
pub const HALF_VIEW_X: i64 = 160_000_000;
pub const HALF_VIEW_Y: i64 = 120_000_000;

/// How far ahead of the player the camera looks, in world units.
pub const LOOK_AHEAD: i64 = 40;

/// The camera offset that puts the point `LOOK_AHEAD` units ahead of a
/// player at `pos`, heading `d`, at the centre of the screen.
pub open spec fn camera_target(pos: Vec2, d: Vec2) -> Vec2 {
    Vec2 {
        x: (-(pos.x - HALF_VIEW_X + d.x * (LOOK_AHEAD * 1000))) as i64,
        y: (-(pos.y - HALF_VIEW_Y + d.y * (LOOK_AHEAD * 1000))) as i64,
    }
}

/// A tenth of the way from `c` to `t`: nine tenths of `c` and one of `t`,
/// truncated toward zero.
pub open spec fn followed(c: Vec2, t: Vec2) -> Vec2 {
    Vec2 { x: div_trunc(9 * c.x + t.x, 10) as i64, y: div_trunc(9 * c.y + t.y, 10) as i64 }
}

fn follow_coord(c: i64, t: i64) -> (r: i64)
    requires
        -COORD_LIMIT <= c <= COORD_LIMIT,
        -COORD_LIMIT <= t <= COORD_LIMIT,
    ensures
        r == div_trunc(9 * c + t, 10),
        -COORD_LIMIT <= r <= COORD_LIMIT,
{
    let n: i64 = 9 * c + t;
    if n >= 0 {
        n / 10
    } else {
        -((-n) / 10)
    }
}

/// `b` is `a` after `Walden::control` read `pad` and returned `ev`: the
/// player steered (see `steer_target`) and its clock advanced, the selector
/// and the gauges got a copy of it, the buttons show their levels, and the
/// selector took its transition.
pub open spec fn controlled(a: Walden, b: Walden, delta: u32, pad: Pad, ev: SelectorEvent) -> bool {
    &&& (b.selector.state, ev) == next_spec(
        a.selector.state,
        Input { a: pad.a, dpad: pad.dpad, delta },
    )
    &&& b.selector.choice == if a.selector.state == SelectorState::Idle {
        a.selector.choice
    } else {
        pad.dpad
    }
    &&& b.selector.axis == halved(a.selector.axis, b.selector.choice)
    &&& b.world.player_id == a.world.player_id
    &&& steered(
        a.world.player(),
        steer_target(a.selector.state, pad.dpad, a.world.player().log_speed),
        delta,
        b.world.player(),
    )
    &&& b.world.entities() == a.world.entities().insert(
        a.world.player_id,
        Entity { kind: EntityKind::Player(b.world.player()), position: a.world.player_position() },
    )
    &&& b.selector.player == b.world.player()
    &&& b.indicators@.len() == a.indicators@.len()
    &&& forall|i: int|
        0 <= i < a.indicators@.len() ==> b.indicators@[i] == showing(
            a.indicators@[i],
            b.world.player(),
        )
    &&& b.button_a == (Button { pressed: pad.a, ..a.button_a })
    &&& b.button_b == (Button { pressed: pad.b, ..a.button_b })
    &&& b.camera_pos == a.camera_pos
}

/// `b` is `a` after `Walden::apply` did what `ev` asks: used the active
/// item, or swapped hands, or nothing.
pub open spec fn applied(a: Walden, b: Walden, ev: SelectorEvent) -> bool {
    &&& b.world.player_id == a.world.player_id
    &&& b.world.entities() == match ev {
        SelectorEvent::Nothing => a.world.entities(),
        SelectorEvent::TriggerAction => a.world.entities().insert(
            a.world.player_id,
            Entity {
                kind: EntityKind::Player(acted(a.world)),
                position: a.world.player_position(),
            },
        ),
        SelectorEvent::SwapItem(d) => a.world.entities().insert(
            a.world.player_id,
            Entity {
                kind: EntityKind::Player(with_hand(a.world.player(), d)),
                position: a.world.player_position(),
            },
        ),
    }
    &&& b.selector == a.selector
    &&& b.indicators == a.indicators
    &&& b.camera_pos == a.camera_pos
    &&& b.button_a == a.button_a
    &&& b.button_b == a.button_b
}

/// `b` is `a` with the camera moved a tenth of the way toward
/// `camera_target`.
pub open spec fn camera_followed(a: Walden, b: Walden) -> bool {
    &&& b.camera_pos == followed(
        a.camera_pos,
        camera_target(a.world.player_position(), heading_of(a.world.player().log_speed)),
    )
    &&& b.world == a.world
    &&& b.selector == a.selector
    &&& b.indicators == a.indicators
    &&& b.button_a == a.button_a
    &&& b.button_b == a.button_b
}

/// `b` is `a` after `Walden::update`: with a controller, `control`, then
/// `apply` of its event, then the camera; without one, the camera alone.
pub open spec fn updated(a: Walden, b: Walden, delta: u32, pad: Option<Pad>) -> bool {
    match pad {
        Some(p) => exists|m1: Walden, m2: Walden, ev: SelectorEvent|
            controlled(a, m1, delta, p, ev) && applied(m1, m2, ev) && camera_followed(m2, b),
        None => camera_followed(a, b),
    }
}

/// Two games agree on everything but how their graphs are laid out.
pub open spec fn same_game(a: Walden, b: Walden) -> bool {
    &&& a.world.player_id == b.world.player_id
    &&& a.world.entities() == b.world.entities()
    &&& a.selector == b.selector
    &&& a.indicators@ == b.indicators@
    &&& a.button_a == b.button_a
    &&& a.button_b == b.button_b
    &&& a.camera_pos == b.camera_pos
}

proof fn lemma_steered_unique(p: Player, target: Vec2, delta: u32, q1: Player, q2: Player)
    requires
        steered(p, target, delta, q1),
        steered(p, target, delta, q2),
    ensures
        q1 == q2,
{
    let v = damped(p.log_speed, target);
    let n1 = choose|n: int| restretched_by(v, q1.log_speed, n);
    let n2 = choose|n: int| restretched_by(v, q2.log_speed, n);
    lemma_isqrt_unique(v.x * v.x + v.y * v.y, n1, n2);
}

proof fn lemma_controlled_unique(
    a: Walden,
    b1: Walden,
    b2: Walden,
    delta: u32,
    pad: Pad,
    e1: SelectorEvent,
    e2: SelectorEvent,
)
    requires
        controlled(a, b1, delta, pad, e1),
        controlled(a, b2, delta, pad, e2),
    ensures
        e1 == e2,
        same_game(b1, b2),
{
    lemma_steered_unique(
        a.world.player(),
        steer_target(a.selector.state, pad.dpad, a.world.player().log_speed),
        delta,
        b1.world.player(),
        b2.world.player(),
    );
    assert(b1.indicators@ =~= b2.indicators@);
}

proof fn lemma_applied_same(a1: Walden, a2: Walden, b1: Walden, b2: Walden, ev: SelectorEvent)
    requires
        same_game(a1, a2),
        applied(a1, b1, ev),
        applied(a2, b2, ev),
    ensures
        same_game(b1, b2),
{
}

proof fn lemma_camera_same(a1: Walden, a2: Walden, b1: Walden, b2: Walden)
    requires
        same_game(a1, a2),
        camera_followed(a1, b1),
        camera_followed(a2, b2),
    ensures
        same_game(b1, b2),
{
}

/// A tick is a function of the game and the input: two ticks of the same
/// game on the same input end in the same game, up to how the graphs are
/// laid out.
pub proof fn lemma_update_deterministic(
    a: Walden,
    b1: Walden,
    b2: Walden,
    delta: u32,
    pad: Option<Pad>,
)
    requires
        updated(a, b1, delta, pad),
        updated(a, b2, delta, pad),
    ensures
        same_game(b1, b2),
{
    match pad {
        Some(p) => {
            let (m1, n1, e1) = choose|m1: Walden, m2: Walden, ev: SelectorEvent|
                controlled(a, m1, delta, p, ev) && applied(m1, m2, ev) && camera_followed(m2, b1);
            let (m2, n2, e2) = choose|m1: Walden, m2: Walden, ev: SelectorEvent|
                controlled(a, m1, delta, p, ev) && applied(m1, m2, ev) && camera_followed(m2, b2);
            lemma_controlled_unique(a, m1, m2, delta, p, e1, e2);
            lemma_applied_same(m1, m2, n1, n2, e1);
            lemma_camera_same(n1, n2, b1, b2);
        },
        None => {
            assert(same_game(a, a));
            lemma_camera_same(a, a, b1, b2);
        },
    }
}

/// Swapping to the hand that is already active changes nothing.
pub proof fn lemma_swap_same_hand(p: Player)
    ensures
        with_hand(p, p.current_hand) == p,
{
}

/// The game: the world, the on-screen buttons, the selector, the stat gauges
/// and the camera offset (micro-units).
pub struct Walden {
    pub world: World,
    pub button_a: Button,
    pub button_b: Button,
    pub selector: Selector,
    pub indicators: Vec<StatIndicator>,
    pub camera_pos: Vec2,
}

proof fn lemma_player_entity(w: World)
    requires
        w.wf(),
    ensures
        w.entities()[w.player_id] == (Entity {
            kind: EntityKind::Player(w.player()),
            position: w.player_position(),
        }),
{
}

impl Walden {
    pub open spec fn wf(&self) -> bool {
        &&& self.world.wf()
        &&& axis_in_range(self.selector.axis)
        &&& in_bounds(self.camera_pos)
    }

    fn heading(&self) -> (r: Vec2)
        requires
            self.world.wf(),
        ensures
            r == heading_of(self.world.player().log_speed),
            -1000 <= r.x <= 1000 && -1000 <= r.y <= 1000,
    {
        let player = self.world.get_player();
        match player.heading() {
            Some(d) => {
                proof {
                    assert(facing(player.log_speed, d));
                    let e = choose|e: Vec2| facing(player.log_speed, e);
                    lemma_one_heading(player.log_speed, d, e);
                }
                d
            },
            None => {
                proof {
                    lemma_no_heading(player.log_speed);
                }
                Vec2 { x: 0, y: 0 }
            },
        }
    }

    /// Moves the camera a tenth of the way toward `camera_target`.
    pub fn follow_camera(&mut self)
        requires
            old(self).wf(),
        ensures
            final(self).wf(),
            camera_followed(*old(self), *final(self)),
    {
        let pos = self.world.get_player_position();
        let d = self.heading();
        assert(-40_000_000 <= d.x * (LOOK_AHEAD * 1000) <= 40_000_000) by (nonlinear_arith)
            requires -1000 <= d.x <= 1000;
        assert(-40_000_000 <= d.y * (LOOK_AHEAD * 1000) <= 40_000_000) by (nonlinear_arith)
            requires -1000 <= d.y <= 1000;
        let tx: i64 = -(pos.x - HALF_VIEW_X + d.x * (LOOK_AHEAD * 1000));
        let ty: i64 = -(pos.y - HALF_VIEW_Y + d.y * (LOOK_AHEAD * 1000));
        self.camera_pos = Vec2 {
            x: follow_coord(self.camera_pos.x, tx),
            y: follow_coord(self.camera_pos.y, ty),
        };
    }

    /// Reads one tick of the controller: the player steers (see
    /// `steer_target`) and its clock advances, the selector and the gauges
    /// get a copy of it, the buttons show their levels, and the selector
    /// takes its transition. Returns the selector's event.
    pub fn control(&mut self, delta: u32, pad: Pad) -> (r: SelectorEvent)
        requires
            old(self).wf(),
        ensures
            final(self).wf(),
            controlled(*old(self), *final(self), delta, pad, r),
    {
        let mut player = self.world.get_player();
        let heading = self.heading();
        let target = match pad.dpad {
            Some(d) => {
                if self.selector.state == SelectorState::Idle {
                    let v = d.vector();
                    Vec2 { x: 2 * v.x, y: 2 * v.y }
                } else {
                    heading
                }
            },
            None => heading,
        };
        player.steer(target, delta);
        self.world.set_player(player);
        self.selector.player = player;
        let mut i: usize = 0;
        let ghost world = self.world;
        let ghost selector = self.selector;
        while i < self.indicators.len()
            invariant
                self.world == world,
                self.selector == selector,
                self.camera_pos == old(self).camera_pos,
                self.button_a == old(self).button_a,
                self.button_b == old(self).button_b,
                0 <= i <= self.indicators@.len(),
                self.indicators@.len() == old(self).indicators@.len(),
                forall|j: int| 0 <= j < i ==> self.indicators@[j] == showing(
                    old(self).indicators@[j],
                    player,
                ),
                forall|j: int| i <= j < self.indicators@.len() ==> self.indicators@[j]
                    == old(self).indicators@[j],
            decreases self.indicators@.len() - i,
        {
            let mut ind = self.indicators[i];
            ind.set_player(&player);
            self.indicators.set(i, ind);
            i = i + 1;
        }
        self.button_a.pressed = pad.a;
        self.button_b.pressed = pad.b;
        self.selector.advance(Input { a: pad.a, dpad: pad.dpad, delta })
    }

    /// Does what the selector asked: uses the active item, or swaps hands.
    pub fn apply(&mut self, event: SelectorEvent)
        requires
            old(self).wf(),
        ensures
            final(self).wf(),
            applied(*old(self), *final(self), event),
    {
        match event {
            SelectorEvent::Nothing => {},
            SelectorEvent::TriggerAction => self.trigger_action(),
            SelectorEvent::SwapItem(d) => self.swap_item(d),
        }
    }

    /// One tick of the game but the world's own step: with a controller,
    /// `control` and then `apply` of its event; the camera follows in any
    /// case. The world is then advanced with `World::update`, whose step
    /// length comes from the log-speed that this leaves.
    pub fn update(&mut self, delta: u32, pad: Option<Pad>)
        requires
            old(self).wf(),
        ensures
            final(self).wf(),
            updated(*old(self), *final(self), delta, pad),
    {
        if let Some(p) = pad {
            let ghost m0 = *self;
            let event = self.control(delta, p);
            let ghost m1 = *self;
            self.apply(event);
            let ghost m2 = *self;
            self.follow_camera();
            assert(controlled(m0, m1, delta, p, event) && applied(m1, m2, event)
                && camera_followed(m2, *self));
            assert(updated(m0, *self, delta, pad));
        } else {
            self.follow_camera();
        }
    }

    /// A new game in a new world, the gauges showing hunger, thirst and
    /// sleep.
    pub fn new() -> (r: Walden)
        ensures
            r.wf(),
            is_start_world(r.world),
            r.world.player() == fresh_player(),
            r.world.player_position() == (Vec2 { x: 150_000_000i64, y: 100_000_000i64 }),
            r.selector == (Selector {
                axis: Vec2 { x: 0, y: 0 },
                choice: None,
                player: fresh_player(),
                state: SelectorState::Idle,
            }),
            r.indicators@ == seq![
                StatIndicator::Hunger(fresh_player()),
                StatIndicator::Thirst(fresh_player()),
                StatIndicator::Sleep(fresh_player()),
            ],
            r.button_a == (Button { is_a: true, pressed: false }),
            r.button_b == (Button { is_a: false, pressed: false }),
            r.camera_pos == (Vec2 { x: 0, y: 0 }),
    {
        let world = World::new();
        let player = world.get_player();
        Walden {
            world,
            button_a: Button::a(),
            button_b: Button::b(),
            selector: Selector::new(player),
            camera_pos: Vec2 { x: 0, y: 0 },
            indicators: vec![
                StatIndicator::Hunger(player),
                StatIndicator::Thirst(player),
                StatIndicator::Sleep(player),
            ],
        }
    }

    /// Uses the item in the player's active hand, and puts what it became
    /// back into that hand.
    pub fn trigger_action(&mut self)
        requires
            old(self).wf(),
        ensures
            final(self).wf(),
            final(self).world.player_id == old(self).world.player_id,
            final(self).world.entities() == old(self).world.entities().insert(
                old(self).world.player_id,
                Entity {
                    kind: EntityKind::Player(acted(old(self).world)),
                    position: old(self).world.player_position(),
                },
            ),
            final(self).selector == old(self).selector,
            final(self).indicators == old(self).indicators,
            final(self).camera_pos == old(self).camera_pos,
            final(self).button_a == old(self).button_a,
            final(self).button_b == old(self).button_b,
    {
        let player = self.world.get_player();
        proof {
            lemma_player_entity(self.world);
        }
        match player.hands.get(player.current_hand) {
            Some(item) => {
                let resolved = item.do_action(&mut self.world);
                let mut after = self.world.get_player();
                after.hands.set(player.current_hand, resolved);
                self.world.set_player(after);
            },
            None => {
                assert(old(self).world.entities().insert(
                    old(self).world.player_id,
                    Entity {
                        kind: EntityKind::Player(acted(old(self).world)),
                        position: old(self).world.player_position(),
                    },
                ) == old(self).world.entities());
            },
        }
    }

    /// Makes `dpad` the active hand; the items stay where they are.
    pub fn swap_item(&mut self, dpad: Dpad)
        requires
            old(self).wf(),
        ensures
            final(self).wf(),
            final(self).world.player_id == old(self).world.player_id,
            final(self).world.entities() == old(self).world.entities().insert(
                old(self).world.player_id,
                Entity {
                    kind: EntityKind::Player(with_hand(old(self).world.player(), dpad)),
                    position: old(self).world.player_position(),
                },
            ),
            dpad == old(self).world.player().current_hand ==> final(self).world.entities()
                == old(self).world.entities(),
            final(self).selector == old(self).selector,
            final(self).indicators == old(self).indicators,
            final(self).camera_pos == old(self).camera_pos,
            final(self).button_a == old(self).button_a,
            final(self).button_b == old(self).button_b,
    {
        let mut player = self.world.get_player();
        player.current_hand = dpad;
        self.world.set_player(player);
        proof {
            lemma_player_entity(old(self).world);
            lemma_swap_same_hand(old(self).world.player());
            if dpad == old(self).world.player().current_hand {
                assert(self.world.entities() == old(self).world.entities());
            }
        }
    }
}

} // verus!
