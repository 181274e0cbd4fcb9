use vstd::prelude::*;
use petgraph::stable_graph::StableGraph;
use crate::geometry::{
    dist_sq_spec, direction_spec, in_bounds, is_isqrt, lemma_dist_sq_bound, lemma_isqrt_unique, Vec2, MICRO,
};
use crate::item::Item;
use crate::player::{fresh_player, quenched, tired, Player, STAT_FULL};
use crate::store::{graph_add, graph_entities, graph_get, graph_ids, graph_new, graph_set};

verus! {

/// A pouch that may one day hold items.
#[derive(Clone, Copy, Debug, PartialEq, Eq, Structural)]
pub struct Inventory {}

/// The link between two entities of the world; none is made yet.
#[derive(Clone, Copy, Debug, PartialEq, Eq, Structural)]
pub struct Edge {}

/// What an entity is.
#[derive(Clone, Copy, Debug, PartialEq, Eq, Structural)]
pub enum EntityKind {
    Player(Player),
    Bag(Inventory),
    Tent(Inventory),
    Grass,
    Stone,
    Tree,
    Bush,
    Axe,
    /// A pond with its radius, in micro-units.
    Pond(i64),
}

/// An object of the world at a position (micro-units).
#[derive(Clone, Copy, Debug, PartialEq, Eq, Structural)]
pub struct Entity {
    pub kind: EntityKind,
    pub position: Vec2,
}


/// Positions of the world stay within this distance of the origin on each
/// axis, in micro-units.
pub const WORLD_LIMIT: i64 = 549_755_813_888;

/// The radius of every entity but a pond, in micro-units.
pub const DEFAULT_SIZE: i64 = 10_000_000;

pub open spec fn in_world(p: Vec2) -> bool {
    -WORLD_LIMIT <= p.x <= WORLD_LIMIT && -WORLD_LIMIT <= p.y <= WORLD_LIMIT
}

pub open spec fn size_spec(kind: EntityKind) -> int {
    match kind {
        EntityKind::Pond(r) => r as int,
        _ => DEFAULT_SIZE as int,
    }
}

pub open spec fn item_of(kind: EntityKind) -> Option<Item> {
    match kind {
        EntityKind::Axe => Some(Item::Axe),
        EntityKind::Bush => Some(Item::Berry),
        _ => None,
    }
}

pub open spec fn solid_spec(kind: EntityKind) -> bool {
    match kind {
        EntityKind::Bag(_) | EntityKind::Tent(_) | EntityKind::Stone | EntityKind::Tree
        | EntityKind::Bush | EntityKind::Pond(_) => true,
        _ => false,
    }
}

impl EntityKind {
    /// The item that picking this up gives.
    pub fn get_item(&self) -> (r: Option<Item>)
        ensures
            r == item_of(*self),
    {
        match self {
            EntityKind::Axe => Some(Item::Axe),
            EntityKind::Bush => Some(Item::Berry),
            _ => None,
        }
    }

    pub fn is_pickupable(&self) -> (r: bool)
        ensures
            r == item_of(*self) is Some,
    {
        self.get_item().is_some()
    }

    /// The radius, in micro-units.
    pub fn size(&self) -> (r: i64)
        ensures
            r == size_spec(*self),
    {
        match self {
            EntityKind::Pond(r) => *r,
            _ => DEFAULT_SIZE,
        }
    }

    pub fn is_solid(&self) -> (r: bool)
        ensures
            r == solid_spec(*self),
    {
        match self {
            EntityKind::Bag(_) => true,
            EntityKind::Tent(_) => true,
            EntityKind::Stone => true,
            EntityKind::Tree => true,
            EntityKind::Bush => true,
            EntityKind::Pond(_) => true,
            _ => false,
        }
    }
}

impl Entity {
    pub fn new(kind: EntityKind, position: Vec2) -> (r: Entity)
        ensures
            r.kind == kind,
            r.position == position,
    {
        Entity { kind, position }
    }

    /// Fit to stand in a world: inside it, with a radius from zero to the
    /// world's extent, and, for a player, well-formed.
    pub open spec fn fits(self) -> bool {
        &&& in_world(self.position)
        &&& 0 <= size_spec(self.kind) <= WORLD_LIMIT
        &&& (self.kind matches EntityKind::Player(p) ==> p.wf())
    }
}

/// Why an operation of the world failed.
#[derive(Clone, Copy, Debug, PartialEq, Eq, Structural)]
pub enum WorldError {
    /// No entity has that id.
    EntityNotFound,
    /// The world holds as many entities as ids can name.
    Full,
}

/// The world: its entities, kept under ids that stay valid while the entity
/// lives, and the id of the one player among them.
pub struct World {
    pub player_id: usize,
    pub content: StableGraph<Entity, Edge>,
}

/// How far ahead of the player water is looked for, in world units.
pub const REACH: i64 = 20;

/// Step lengths up to this, in milli-units, move nothing.
pub const DEAD_ZONE: i64 = 20;

/// A step is at most this long either way, in milli-units.
pub const STEP_LIMIT: i64 = 10_000;

/// `e` is a pond that holds the point `p` strictly inside its radius.
pub open spec fn pond_holds(e: Entity, p: Vec2) -> bool {
    e.kind matches EntityKind::Pond(r) && dist_sq_spec(p, e.position) < r * r
}

/// Some pond of `m` holds the point `p` strictly inside its radius.
pub open spec fn pond_covers(m: Map<usize, Entity>, p: Vec2) -> bool {
    exists|id: usize| #[trigger] m.dom().contains(id) && pond_holds(m[id], p)
}

/// `d` is the direction of `v`: `v` over its rounded-down length, in
/// milli-units.
pub open spec fn facing(v: Vec2, d: Vec2) -> bool {
    exists|n: int| n > 0 && is_isqrt(v.x * v.x + v.y * v.y, n) && d == direction_spec(v, n)
}

/// The point `REACH` units from `p` along the unit direction `d`.
pub open spec fn ahead(p: Vec2, d: Vec2) -> Vec2 {
    Vec2 { x: (p.x + d.x * (REACH * 1000)) as i64, y: (p.y + d.y * (REACH * 1000)) as i64 }
}

/// How far the player may step toward `e` from the point `target` it aimed
/// at, in milli-units, where `r` is the distance between the two: the gap
/// between their rims, or nothing where they touch.
pub open spec fn gap_limit(e: Entity, r: int) -> int {
    let g = r - (DEFAULT_SIZE + size_spec(e.kind));
    if g <= 0 {
        0
    } else {
        g / 1000
    }
}

/// `s` is no longer than the gap to any entity but the player.
pub open spec fn within_gaps(m: Map<usize, Entity>, target: Vec2, s: int) -> bool {
    forall|id: usize, r: int|
        #![trigger m.dom().contains(id), is_isqrt(dist_sq_spec(target, m[id].position), r)]
        m.dom().contains(id) && !(m[id].kind is Player) && is_isqrt(
            dist_sq_spec(target, m[id].position),
            r,
        ) ==> s <= gap_limit(m[id], r)
}

/// `s` is the gap to some entity but the player.
pub open spec fn is_some_gap(m: Map<usize, Entity>, target: Vec2, s: int) -> bool {
    exists|id: usize, r: int|
        #![trigger m.dom().contains(id), is_isqrt(dist_sq_spec(target, m[id].position), r)]
        m.dom().contains(id) && !(m[id].kind is Player) && is_isqrt(
            dist_sq_spec(target, m[id].position),
            r,
        ) && s == gap_limit(m[id], r)
}

/// `s` is the smallest of `step` and the gaps to all entities but the
/// player, measured from `target`.
pub open spec fn is_clamped(m: Map<usize, Entity>, target: Vec2, step: int, s: int) -> bool {
    &&& s <= step
    &&& within_gaps(m, target, s)
    &&& (s == step || is_some_gap(m, target, s))
}

pub open spec fn clamp_world(v: int) -> int {
    if v < -WORLD_LIMIT {
        -WORLD_LIMIT
    } else if v > WORLD_LIMIT {
        WORLD_LIMIT as int
    } else {
        v
    }
}

/// Where one tick of movement takes a player at `pos` with log-speed `v`
/// and step length `step`: nowhere in the dead zone or without a heading;
/// otherwise along the heading `d`, by `step` cut down to the gaps around
/// the point the full step aims at, and kept inside the world.
pub open spec fn moved(m: Map<usize, Entity>, pos: Vec2, v: Vec2, step: int, to: Vec2) -> bool {
    if -DEAD_ZONE <= step <= DEAD_ZONE || v == (Vec2 { x: 0, y: 0 }) {
        to == pos
    } else {
        exists|d: Vec2, s: int|
            #![trigger facing(v, d), is_clamped(m, Vec2 { x: (pos.x + d.x * step) as i64, y: (pos.y + d.y * step) as i64 }, step, s)]
            facing(v, d) && is_clamped(
                m,
                Vec2 { x: (pos.x + d.x * step) as i64, y: (pos.y + d.y * step) as i64 },
                step,
                s,
            ) && to == (Vec2 {
                x: clamp_world(pos.x + d.x * s) as i64,
                y: clamp_world(pos.y + d.y * s) as i64,
            })
    }
}

/// There is water `REACH` units ahead of the player.
pub open spec fn water_ahead(w: World) -> bool {
    exists|d: Vec2|
        facing(w.player().log_speed, d) && pond_covers(w.entities(), ahead(w.player_position(), d))
}

fn clamp_coord(v: i64) -> (r: i64)
    ensures
        r == clamp_world(v as int),
{
    if v < -WORLD_LIMIT {
        -WORLD_LIMIT
    } else if v > WORLD_LIMIT {
        WORLD_LIMIT
    } else {
        v
    }
}

/// A zero vector has no direction.
pub proof fn lemma_no_heading(v: Vec2)
    requires
        v == (Vec2 { x: 0, y: 0 }),
    ensures
        forall|d: Vec2| !facing(v, d),
{
    assert forall|d: Vec2| !facing(v, d) by {
        assert forall|n: int| n > 0 implies !#[trigger] is_isqrt(v.x * v.x + v.y * v.y, n) by {
            assert(n * n > 0) by (nonlinear_arith) requires n > 0;
        }
    }
}

/// A vector has at most one direction.
pub proof fn lemma_one_heading(v: Vec2, d: Vec2, e: Vec2)
    requires
        facing(v, d),
        facing(v, e),
    ensures
        d == e,
{
    let n = choose|n: int| n > 0 && is_isqrt(v.x * v.x + v.y * v.y, n) && d == direction_spec(v, n);
    let k = choose|k: int| k > 0 && is_isqrt(v.x * v.x + v.y * v.y, k) && e == direction_spec(v, k);
    lemma_isqrt_unique(v.x * v.x + v.y * v.y, n, k);
}


/// A pond of radius `r` at `(x, y)`, all in world units.
pub open spec fn pond(r: i64, x: i64, y: i64) -> Entity {
    Entity {
        kind: EntityKind::Pond((r * MICRO) as i64),
        position: Vec2 { x: (x * MICRO) as i64, y: (y * MICRO) as i64 },
    }
}

/// The entities of a new world, the player under `p` and three ponds under
/// `a`, `b` and `c`.
pub open spec fn start_map(p: usize, a: usize, b: usize, c: usize) -> Map<usize, Entity> {
    map![p => Entity {
        kind: EntityKind::Player(fresh_player()),
        position: Vec2 { x: 150_000_000i64, y: 100_000_000i64 },
    }].insert(a, pond(40, 200, 130)).insert(b, pond(60, 280, 120)).insert(c, pond(50, 240, 180))
}

/// `w` is a world as a game starts in: a rested player at (150, 100), and
/// ponds of radius 40 at (200, 130), 60 at (280, 120) and 50 at (240, 180).
pub open spec fn is_start_world(w: World) -> bool {
    &&& w.wf()
    &&& w.entities().len() == 4
    &&& exists|a: usize, b: usize, c: usize| w.entities() == start_map(w.player_id, a, b, c)
}

proof fn lemma_dist_sq_of(p: Vec2, q: Vec2, dx: int, dy: int)
    requires
        p.x - q.x == dx,
        p.y - q.y == dy,
    ensures
        dist_sq_spec(p, q) == dx * dx + dy * dy,
{
}

/// In a world as a game starts in, there is no water ahead of the player:
/// it faces up, and the point 20 units above it, (150, 80), lies in no pond.
pub proof fn lemma_start_dry(w: World)
    requires
        is_start_world(w),
    ensures
        !water_ahead(w),
{
    let (a, b, c) = choose|a: usize, b: usize, c: usize| w.entities() == start_map(w.player_id, a, b, c);
    let m = w.entities();
    let up = Vec2 { x: 0, y: -1000i64 };
    let v = w.player().log_speed;
    assert(m[w.player_id].kind == EntityKind::Player(fresh_player()));
    assert(v == up);
    assert(is_isqrt(v.x * v.x + v.y * v.y, 1000));
    assert forall|d: Vec2| facing(v, d) implies d == up by {
        let n = choose|n: int| n > 0 && is_isqrt(v.x * v.x + v.y * v.y, n) && d == direction_spec(v, n);
        lemma_isqrt_unique(v.x * v.x + v.y * v.y, n, 1000);
    }
    let p = Vec2 { x: 150_000_000i64, y: 80_000_000i64 };
    assert(ahead(w.player_position(), up) == p);
    assert forall|id: usize| m.dom().contains(id) implies !pond_holds(m[id], p) by {
        if id == c {
            assert(m[id] == pond(50, 240, 180));
            assert(m[id].position == (Vec2 { x: 240_000_000i64, y: 180_000_000i64 }));
            assert(m[id].kind == EntityKind::Pond(50_000_000i64));
            lemma_dist_sq_of(p, m[id].position, -90_000_000, -100_000_000);
            assert((-90_000_000int) * (-90_000_000int) + (-100_000_000int) * (-100_000_000int)
                >= (50_000_000int) * (50_000_000int));
        } else if id == b {
            assert(m[id] == pond(60, 280, 120));
            assert(m[id].position == (Vec2 { x: 280_000_000i64, y: 120_000_000i64 }));
            assert(m[id].kind == EntityKind::Pond(60_000_000i64));
            lemma_dist_sq_of(p, m[id].position, -130_000_000, -40_000_000);
            assert((-130_000_000int) * (-130_000_000int) + (-40_000_000int) * (-40_000_000int)
                >= (60_000_000int) * (60_000_000int));
        } else if id == a {
            assert(m[id] == pond(40, 200, 130));
            assert(m[id].position == (Vec2 { x: 200_000_000i64, y: 130_000_000i64 }));
            assert(m[id].kind == EntityKind::Pond(40_000_000i64));
            lemma_dist_sq_of(p, m[id].position, -50_000_000, -50_000_000);
            assert((-50_000_000int) * (-50_000_000int) + (-50_000_000int) * (-50_000_000int)
                >= (40_000_000int) * (40_000_000int));
        } else {
            assert(id == w.player_id);
        }
    }
}

/// Entities that may stand in a world whose player is under `p` stay fit
/// when `e` is put under `id`.
proof fn lemma_entities_stay_fit(m: Map<usize, Entity>, p: usize, id: usize, e: Entity)
    requires
        forall|k: usize| #[trigger] m.dom().contains(k) ==> k < u32::MAX && m[k].fits()
            && (m[k].kind is Player ==> k == p),
        id < u32::MAX,
        e.fits(),
        e.kind is Player ==> id == p,
    ensures
        forall|k: usize| #[trigger] m.insert(id, e).dom().contains(k) ==> k < u32::MAX
            && m.insert(id, e)[k].fits() && (m.insert(id, e)[k].kind is Player ==> k == p),
{
    assert forall|k: usize| #[trigger] m.insert(id, e).dom().contains(k) implies k < u32::MAX
        && m.insert(id, e)[k].fits() && (m.insert(id, e)[k].kind is Player ==> k == p) by {
        if k != id {
            assert(m.dom().contains(k));
        }
    }
}

impl World {
    /// The entities by id.
    pub open spec fn entities(&self) -> Map<usize, Entity> {
        graph_entities(self.content)
    }

    pub open spec fn wf(&self) -> bool {
        let m = self.entities();
        &&& m.dom().finite()
        &&& m.len() < u32::MAX
        &&& m.dom().contains(self.player_id)
        &&& m[self.player_id].kind is Player
        &&& forall|id: usize| #[trigger] m.dom().contains(id) ==> id < u32::MAX && m[id].fits()
                && (m[id].kind is Player ==> id == self.player_id)
    }

    /// The player.
    pub open spec fn player(&self) -> Player {
        self.entities()[self.player_id].kind->Player_0
    }

    /// Where the player stands.
    pub open spec fn player_position(&self) -> Vec2 {
        self.entities()[self.player_id].position
    }

    /// A world that holds only `player`, at `position`.
    pub fn with_player(player: Player, position: Vec2) -> (r: World)
        requires
            player.wf(),
            in_world(position),
        ensures
            r.wf(),
            r.entities() == map![r.player_id => Entity { kind: EntityKind::Player(player), position }],
    {
        let mut content = graph_new();
        let e = Entity { kind: EntityKind::Player(player), position };
        let player_id = graph_add(&mut content, e);
        let r = World { player_id, content };
        assert(r.entities() == map![r.player_id => e]);
        r
    }

    /// Adds an entity that is not a player; `Full` where ids have run out,
    /// and then nothing changes.
    pub fn insert(&mut self, entity: Entity) -> (r: Result<usize, WorldError>)
        requires
            old(self).wf(),
            entity.fits(),
            !(entity.kind is Player),
        ensures
            final(self).wf(),
            final(self).player_id == old(self).player_id,
            match r {
                Ok(id) => !old(self).entities().dom().contains(id) && final(self).entities()
                    == old(self).entities().insert(id, entity),
                Err(e) => e == WorldError::Full && old(self).entities().len() + 1 >= u32::MAX
                    && final(self).entities() == old(self).entities(),
            },
    {
        let n = crate::store::graph_count(&self.content);
        if n >= 0xffff_fffe {
            return Err(WorldError::Full);
        }
        let id = graph_add(&mut self.content, entity);
        proof {
            let m = self.entities();
            assert(m.dom() == old(self).entities().dom().insert(id));
            lemma_entities_stay_fit(old(self).entities(), self.player_id, id, entity);
        }
        Ok(id)
    }

    /// The entity under `id`, or `EntityNotFound`.
    pub fn get(&self, id: usize) -> (r: Result<Entity, WorldError>)
        requires
            self.wf(),
        ensures
            r == if self.entities().dom().contains(id) {
                Ok(self.entities()[id])
            } else {
                Err(WorldError::EntityNotFound)
            },
    {
        if id >= 0xffff_ffff {
            return Err(WorldError::EntityNotFound);
        }
        match graph_get(&self.content, id) {
            Some(e) => Ok(e),
            None => Err(WorldError::EntityNotFound),
        }
    }

    /// Replaces the entity under `id`, or fails with `EntityNotFound` and
    /// changes nothing. The player's id must keep a player, and no other id
    /// may take one.
    pub fn set(&mut self, id: usize, entity: Entity) -> (r: Result<(), WorldError>)
        requires
            old(self).wf(),
            entity.fits(),
            (entity.kind is Player) == (id == old(self).player_id),
        ensures
            final(self).wf(),
            final(self).player_id == old(self).player_id,
            r == if old(self).entities().dom().contains(id) {
                Ok::<(), WorldError>(())
            } else {
                Err(WorldError::EntityNotFound)
            },
            final(self).entities() == if r is Ok {
                old(self).entities().insert(id, entity)
            } else {
                old(self).entities()
            },
    {
        if id >= 0xffff_ffff {
            return Err(WorldError::EntityNotFound);
        }
        match graph_get(&self.content, id) {
            None => Err(WorldError::EntityNotFound),
            Some(_) => {
                graph_set(&mut self.content, id, entity);
                proof {
                    let m = self.entities();
                    assert(m.dom() == old(self).entities().dom());
                    lemma_entities_stay_fit(old(self).entities(), self.player_id, id, entity);
                }
                Ok(())
            },
        }
    }

    /// The ids of all entities, in increasing order.
    pub fn ids(&self) -> (r: Vec<usize>)
        ensures
            forall|id: usize| self.entities().dom().contains(id) <==> r@.contains(id),
            forall|i: int, j: int| 0 <= i < j < r@.len() ==> r@[i] < r@[j],
    {
        graph_ids(&self.content)
    }

    fn player_entity(&self) -> (r: Entity)
        requires
            self.wf(),
        ensures
            r == self.entities()[self.player_id],
    {
        match graph_get(&self.content, self.player_id) {
            Some(e) => e,
            None => {
                proof {
                    assert(self.entities().dom().contains(self.player_id));
                }
                Entity { kind: EntityKind::Grass, position: Vec2 { x: 0, y: 0 } }
            },
        }
    }

    pub fn get_player(&self) -> (r: Player)
        requires
            self.wf(),
        ensures
            r == self.player(),
            r.wf(),
    {
        let e = self.player_entity();
        match e.kind {
            EntityKind::Player(p) => p,
            _ => {
                proof {
                    assert(false);
                }
                Player::new()
            },
        }
    }

    pub fn get_player_position(&self) -> (r: Vec2)
        requires
            self.wf(),
        ensures
            r == self.player_position(),
            in_world(r),
    {
        self.player_entity().position
    }

    /// Replaces the player's record; the player stays where it stands.
    pub fn set_player(&mut self, player: Player)
        requires
            old(self).wf(),
            player.wf(),
        ensures
            final(self).wf(),
            final(self).player_id == old(self).player_id,
            final(self).entities() == old(self).entities().insert(
                old(self).player_id,
                Entity { kind: EntityKind::Player(player), position: old(self).player_position() },
            ),
    {
        let position = self.get_player_position();
        self.place_player(player, position);
    }

    fn place_player(&mut self, player: Player, position: Vec2)
        requires
            old(self).wf(),
            player.wf(),
            in_world(position),
        ensures
            final(self).wf(),
            final(self).player_id == old(self).player_id,
            final(self).entities() == old(self).entities().insert(
                old(self).player_id,
                Entity { kind: EntityKind::Player(player), position },
            ),
    {
        let e = Entity { kind: EntityKind::Player(player), position };
        graph_set(&mut self.content, self.player_id, e);
        proof {
            let m = self.entities();
            assert(m.dom() == old(self).entities().dom());
            lemma_entities_stay_fit(old(self).entities(), self.player_id, self.player_id, e);
        }
    }

    /// Some pond holds the point `p` strictly inside its radius.
    pub fn pond_at(&self, p: Vec2) -> (r: bool)
        requires
            self.wf(),
            in_bounds(p),
        ensures
            r == pond_covers(self.entities(), p),
    {
        let ids = self.ids();
        let mut i: usize = 0;
        while i < ids.len()
            invariant
                self.wf(),
                in_bounds(p),
                0 <= i <= ids@.len(),
                forall|id: usize| self.entities().dom().contains(id) <==> ids@.contains(id),
                forall|j: int| 0 <= j < i ==> !pond_holds(self.entities()[#[trigger] ids@[j]], p),
            decreases ids@.len() - i,
        {
            let id = ids[i];
            assert(ids@.contains(id));
            let e = match self.get(id) {
                Ok(e) => e,
                Err(_) => {
                    proof {
                        assert(false);
                    }
                    return false;
                },
            };
            if let EntityKind::Pond(radius) = e.kind {
                assert(in_world(e.position) && 0 <= radius <= WORLD_LIMIT);
                let d = crate::geometry::dist_sq(p, e.position);
                assert(radius as u128 * radius as u128 <= 0x1_0000_0000_0000_0000_0000u128)
                    by (nonlinear_arith)
                    requires
                        0 <= radius <= WORLD_LIMIT,
                ;
                let rr: u128 = radius as u128 * radius as u128;
                if d < rr {
                    assert(self.entities().dom().contains(id));
                    return true;
                }
            }
            i = i + 1;
        }
        proof {
            assert forall|id: usize| #[trigger] self.entities().dom().contains(id) implies !pond_holds(
                self.entities()[id],
                p,
            ) by {
                assert(ids@.contains(id));
                let j = choose|j: int| 0 <= j < ids@.len() && ids@[j] == id;
            }
        }
        false
    }

    /// Whether the point `REACH` units ahead of the player, along its
    /// heading, lies in a pond; never, for a player without a heading.
    pub fn water_in_front_of_player(&self) -> (r: bool)
        requires
            self.wf(),
        ensures
            r == water_ahead(*self),
    {
        let player = self.get_player();
        let pos = self.get_player_position();
        match player.heading() {
            Some(d) => {
                assert(-20_000_000 <= d.x * (REACH * 1000) <= 20_000_000) by (nonlinear_arith)
                    requires -1000 <= d.x <= 1000;
                assert(-20_000_000 <= d.y * (REACH * 1000) <= 20_000_000) by (nonlinear_arith)
                    requires -1000 <= d.y <= 1000;
                let p = Vec2 { x: pos.x + d.x * (REACH * 1000), y: pos.y + d.y * (REACH * 1000) };
                assert(p == ahead(pos, d));
                let r = self.pond_at(p);
                proof {
                    assert(facing(player.log_speed, d));
                    if r {
                        assert(facing(self.player().log_speed, d) && pond_covers(
                            self.entities(),
                            ahead(self.player_position(), d),
                        ));
                    } else {
                        assert forall|e: Vec2| facing(player.log_speed, e) implies !pond_covers(
                            self.entities(),
                            ahead(pos, e),
                        ) by {
                            lemma_one_heading(player.log_speed, d, e);
                        }
                    }
                }
                r
            },
            None => {
                proof {
                    lemma_no_heading(player.log_speed);
                }
                false
            },
        }
    }

    /// The smallest of `step` and the gaps to all entities but the player,
    /// measured from `target`, the point that a full step would reach.
    pub fn clamp_step(&self, target: Vec2, step: i64) -> (r: i64)
        requires
            self.wf(),
            in_bounds(target),
        ensures
            is_clamped(self.entities(), target, step as int, r as int),
            r >= 0 || r == step,
    {
        let ids = self.ids();
        let mut s: i64 = step;
        let mut i: usize = 0;
        let ghost m = self.entities();
        while i < ids.len()
            invariant
                self.wf(),
                m == self.entities(),
                in_bounds(target),
                0 <= i <= ids@.len(),
                forall|id: usize| m.dom().contains(id) <==> ids@.contains(id),
                s <= step,
                s >= 0 || s == step,
                s == step || is_some_gap(m, target, s as int),
                forall|j: int, r: int|
                    #![trigger ids@[j], is_isqrt(dist_sq_spec(target, m[ids@[j]].position), r)]
                    0 <= j < i && !(m[ids@[j]].kind is Player) && is_isqrt(
                        dist_sq_spec(target, m[ids@[j]].position),
                        r,
                    ) ==> s <= gap_limit(m[ids@[j]], r),
            decreases ids@.len() - i,
        {
            let id = ids[i];
            assert(ids@.contains(id));
            let e = match self.get(id) {
                Ok(e) => e,
                Err(_) => {
                    proof {
                        assert(false);
                    }
                    return s;
                },
            };
            let is_player = match e.kind {
                EntityKind::Player(_) => true,
                _ => false,
            };
            if !is_player {
                assert(in_world(e.position));
                let d: u64 = crate::geometry::dist(target, e.position);
                proof {
                    lemma_dist_sq_bound(target, e.position);
                }
                assert(d <= 0x100_0000_0000_0000) by (nonlinear_arith)
                    requires
                        is_isqrt(dist_sq_spec(target, e.position), d as int),
                        dist_sq_spec(target, e.position) <= 0x10_0000_0000_0000_0000_0000,
                ;
                let reach: i64 = d as i64 - (DEFAULT_SIZE + e.kind.size());
                let limit: i64 = if reach <= 0 {
                    0
                } else {
                    reach / 1000
                };
                assert(limit == gap_limit(e, d as int));
                if limit < s {
                    s = limit;
                }
                proof {
                    assert forall|j: int, r: int|
                        #![trigger ids@[j], is_isqrt(dist_sq_spec(target, m[ids@[j]].position), r)]
                        0 <= j < i + 1 && !(m[ids@[j]].kind is Player) && is_isqrt(
                            dist_sq_spec(target, m[ids@[j]].position),
                            r,
                        ) implies s <= gap_limit(m[ids@[j]], r) by {
                        if j == i {
                            lemma_isqrt_unique(dist_sq_spec(target, e.position), r, d as int);
                        }
                    }
                    if s == limit && s != step {
                        assert(m.dom().contains(id) && is_isqrt(dist_sq_spec(target, m[id].position), d as int));
                    }
                }
            }
            i = i + 1;
        }
        proof {
            assert forall|id: usize, r: int|
                #![trigger m.dom().contains(id), is_isqrt(dist_sq_spec(target, m[id].position), r)]
                m.dom().contains(id) && !(m[id].kind is Player) && is_isqrt(
                    dist_sq_spec(target, m[id].position),
                    r,
                ) implies s <= gap_limit(m[id], r) by {
                assert(ids@.contains(id));
                let j = choose|j: int| 0 <= j < ids@.len() && ids@[j] == id;
            }
        }
        s
    }

    /// The world at the start of a game: a rested player at (150, 100) and
    /// three ponds.
    pub fn new() -> (r: World)
        ensures
            is_start_world(r),
            r.player() == fresh_player(),
            r.player_position() == (Vec2 { x: 150_000_000i64, y: 100_000_000i64 }),
    {
        let player = Player::new();
        let mut w = World::with_player(player, Vec2 { x: 150 * MICRO, y: 100 * MICRO });
        assert(w.entities().dom() == set![w.player_id]);
        let a = w.add_pond(40, 200, 130);
        let b = w.add_pond(60, 280, 120);
        let c = w.add_pond(50, 240, 180);
        assert(w.entities() == start_map(w.player_id, a, b, c));
        w
    }

    /// Adds a pond of radius `r` at `(x, y)`, all in world units, to a world
    /// that has room for it.
    fn add_pond(&mut self, r: i64, x: i64, y: i64) -> (id: usize)
        requires
            old(self).wf(),
            old(self).entities().len() < 4,
            0 <= r <= 100 && 0 <= x <= 1000 && 0 <= y <= 1000,
        ensures
            final(self).wf(),
            final(self).player_id == old(self).player_id,
            !old(self).entities().dom().contains(id),
            final(self).entities() == old(self).entities().insert(id, pond(r, x, y)),
            final(self).entities().len() == old(self).entities().len() + 1,
    {
        let e = Entity {
            kind: EntityKind::Pond(r * MICRO),
            position: Vec2 { x: x * MICRO, y: y * MICRO },
        };
        match self.insert(e) {
            Ok(id) => id,
            Err(_) => {
                proof {
                    assert(false);
                }
                0
            },
        }
    }

    /// One tick: the player moves (see `moved`) and its stats decay by
    /// `delta` milliseconds; every other entity stays as it is. `step` is the
    /// length of the player's step, in milli-units: the base-2 logarithm of
    /// its log-speed's length in world units.
    pub fn update(&mut self, delta: u32, step: i64)
        requires
            old(self).wf(),
            -STEP_LIMIT <= step <= STEP_LIMIT,
        ensures
            final(self).wf(),
            final(self).player_id == old(self).player_id,
            final(self).player() == tired(old(self).player(), delta),
            moved(
                old(self).entities(),
                old(self).player_position(),
                old(self).player().log_speed,
                step as int,
                final(self).player_position(),
            ),
            final(self).entities() == old(self).entities().insert(
                old(self).player_id,
                Entity {
                    kind: EntityKind::Player(tired(old(self).player(), delta)),
                    position: final(self).player_position(),
                },
            ),
    {
        let mut player = self.get_player();
        let pos = self.get_player_position();
        let mut to = pos;
        if step < -DEAD_ZONE || step > DEAD_ZONE {
            match player.heading() {
                Some(d) => {
                    assert(-10_000_000 <= d.x * step <= 10_000_000) by (nonlinear_arith)
                        requires -1000 <= d.x <= 1000, -STEP_LIMIT <= step <= STEP_LIMIT;
                    assert(-10_000_000 <= d.y * step <= 10_000_000) by (nonlinear_arith)
                        requires -1000 <= d.y <= 1000, -STEP_LIMIT <= step <= STEP_LIMIT;
                    let target = Vec2 { x: pos.x + d.x * step, y: pos.y + d.y * step };
                    let s = self.clamp_step(target, step);
                    assert(-10_000_000 <= d.x * s <= 10_000_000) by (nonlinear_arith)
                        requires -1000 <= d.x <= 1000, -STEP_LIMIT <= s <= STEP_LIMIT;
                    assert(-10_000_000 <= d.y * s <= 10_000_000) by (nonlinear_arith)
                        requires -1000 <= d.y <= 1000, -STEP_LIMIT <= s <= STEP_LIMIT;
                    to = Vec2 { x: clamp_coord(pos.x + d.x * s), y: clamp_coord(pos.y + d.y * s) };
                    proof {
                        assert(facing(player.log_speed, d));
                        if player.log_speed == (Vec2 { x: 0, y: 0 }) {
                            lemma_no_heading(player.log_speed);
                        }
                        assert(is_clamped(self.entities(), target, step as int, s as int));
                    }
                },
                None => {},
            }
        }
        player.decay(delta);
        self.place_player(player, to);
    }
}


impl Item {
    /// Uses the item on the world. A full bottle is drunk: the player's
    /// thirst is quenched and the bottle comes back empty. An empty bottle is
    /// filled where there is water ahead of the player, and stays empty
    /// elsewhere. An axe or a berry does nothing and comes back as it was.
    pub fn do_action(self, world: &mut World) -> (r: Option<Item>)
        requires
            old(world).wf(),
        ensures
            final(world).wf(),
            final(world).player_id == old(world).player_id,
            match self {
                Item::Bottle(true) => r == Some(Item::Bottle(false)) && final(world).entities()
                    == old(world).entities().insert(
                    old(world).player_id,
                    Entity {
                        kind: EntityKind::Player(quenched(old(world).player())),
                        position: old(world).player_position(),
                    },
                ),
                Item::Bottle(false) => r == Some(Item::Bottle(water_ahead(*old(world))))
                    && final(world).entities() == old(world).entities(),
                _ => r == Some(self) && final(world).entities() == old(world).entities(),
            },
    {
        match self {
            Item::Bottle(full) => {
                if full {
                    let mut player = world.get_player();
                    player.thirst = STAT_FULL;
                    world.set_player(player);
                    Some(Item::Bottle(false))
                } else if world.water_in_front_of_player() {
                    Some(Item::Bottle(true))
                } else {
                    Some(Item::Bottle(false))
                }
            },
            e => Some(e),
        }
    }
}

} // verus!
