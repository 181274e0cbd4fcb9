use walden::geometry::{dist, isqrt, Vec2, MICRO};
use walden::item::Item;
use walden::player::{Player, STAT_FULL};
use walden::world::{Entity, EntityKind, World, WorldError};

fn units(x: i64, y: i64) -> Vec2 {
    Vec2 { x: x * MICRO, y: y * MICRO }
}

#[test]
fn isqrt_exact_and_rounded_down() {
    assert_eq!(isqrt(0), 0);
    assert_eq!(isqrt(1), 1);
    assert_eq!(isqrt(15), 3);
    assert_eq!(isqrt(16), 4);
    assert_eq!(isqrt(u128::MAX), u64::MAX);
    assert_eq!(dist(units(0, 0), units(3, 4)), 5 * MICRO as u64);
}

#[test]
fn new_world_has_player_and_three_ponds() {
    let w = World::new();
    let ids = w.ids();
    assert_eq!(ids.len(), 4);
    assert_eq!(w.get_player_position(), units(150, 100));
    assert_eq!(w.get_player(), Player::new());
    let mut radii: Vec<i64> = Vec::new();
    for id in ids {
        if id != w.player_id {
            match w.get(id).unwrap().kind {
                EntityKind::Pond(r) => radii.push(r / MICRO),
                _ => panic!("not a pond"),
            }
        }
    }
    radii.sort();
    assert_eq!(radii, vec![40, 50, 60]);
}

#[test]
fn get_unknown_id_fails() {
    let w = World::new();
    assert_eq!(w.get(99), Err(WorldError::EntityNotFound));
    assert_eq!(w.get(usize::MAX), Err(WorldError::EntityNotFound));
}

#[test]
fn insert_gives_fresh_id() {
    let mut w = World::with_player(Player::new(), units(0, 0));
    let stone = Entity::new(EntityKind::Stone, units(5, 5));
    let id = w.insert(stone).unwrap();
    assert_ne!(id, w.player_id);
    assert_eq!(w.get(id), Ok(stone));
    let tree = Entity::new(EntityKind::Tree, units(7, 7));
    let id2 = w.insert(tree).unwrap();
    assert_ne!(id2, id);
    assert_eq!(w.get(id2), Ok(tree));
    assert_eq!(w.ids().len(), 3);
}

#[test]
fn entity_kind_predicates() {
    assert_eq!(EntityKind::Pond(7).size(), 7);
    assert_eq!(EntityKind::Stone.size(), 10 * MICRO);
    assert_eq!(EntityKind::Axe.get_item(), Some(Item::Axe));
    assert_eq!(EntityKind::Bush.get_item(), Some(Item::Berry));
    assert_eq!(EntityKind::Grass.get_item(), None);
    assert!(EntityKind::Bush.is_pickupable());
    assert!(!EntityKind::Tree.is_pickupable());
    assert!(EntityKind::Pond(3).is_solid());
    assert!(!EntityKind::Grass.is_solid());
    assert!(!EntityKind::Axe.is_solid());
    assert!(!EntityKind::Player(Player::new()).is_solid());
}

#[test]
fn stats_decay_at_their_rates() {
    let mut w = World::new();
    w.update(1000, 0);
    let p = w.get_player();
    assert_eq!(p.sleep, STAT_FULL - 1000);
    assert_eq!(p.hunger, STAT_FULL - 2000);
    assert_eq!(p.thirst, STAT_FULL - 4000);
}

#[test]
fn thirst_empties_after_fifteen_seconds() {
    let mut w = World::new();
    for _ in 0..15 {
        w.update(1000, 0);
    }
    let p = w.get_player();
    assert_eq!(p.thirst, 0);
    assert_eq!(p.hunger, STAT_FULL / 2);
    assert_eq!(p.sleep, STAT_FULL * 3 / 4);
    w.update(1000, 0);
    assert_eq!(w.get_player().thirst, 0);
}

#[test]
fn stats_never_rise_without_action() {
    let mut w = World::new();
    let mut last = w.get_player();
    for d in [0u32, 7, 1, 250, 3000, 100_000, u32::MAX] {
        w.update(d, 0);
        let p = w.get_player();
        assert!(p.thirst <= last.thirst && p.hunger <= last.hunger && p.sleep <= last.sleep);
        last = p;
    }
    assert_eq!((last.thirst, last.hunger, last.sleep), (0, 0, 0));
}

#[test]
fn free_step_moves_along_heading() {
    let mut w = World::with_player(Player::new(), units(0, 0));
    w.insert(Entity::new(EntityKind::Stone, units(0, -25))).unwrap();
    w.update(0, 1000);
    assert_eq!(w.get_player_position(), units(0, -1));
}

#[test]
fn step_is_cut_to_the_gap() {
    let mut w = World::with_player(Player::new(), units(0, 0));
    w.insert(Entity::new(EntityKind::Stone, Vec2 { x: 0, y: -21_400_000 })).unwrap();
    w.update(0, 1000);
    assert_eq!(w.get_player_position(), Vec2 { x: 0, y: -400_000 });
}

#[test]
fn touching_obstacle_blocks_step() {
    let mut w = World::with_player(Player::new(), units(0, 0));
    w.insert(Entity::new(EntityKind::Pond(15 * MICRO), Vec2 { x: 0, y: -25_500_000 })).unwrap();
    w.update(0, 1500);
    assert_eq!(w.get_player_position(), units(0, 0));
}

#[test]
fn clamp_takes_the_smallest_gap() {
    let mut w = World::with_player(Player::new(), units(0, 0));
    w.insert(Entity::new(EntityKind::Stone, units(0, 30))).unwrap();
    w.insert(Entity::new(EntityKind::Tree, units(0, 23))).unwrap();
    w.insert(Entity::new(EntityKind::Bush, units(0, 26))).unwrap();
    assert_eq!(w.clamp_step(units(0, 0), 9000), 3000);
    assert_eq!(w.clamp_step(units(0, 0), 2000), 2000);
    assert_eq!(w.clamp_step(units(0, 0), -50), -50);
}

#[test]
fn dead_zone_does_not_move() {
    let mut w = World::with_player(Player::new(), units(0, 0));
    w.update(0, 20);
    assert_eq!(w.get_player_position(), units(0, 0));
    w.update(0, -20);
    assert_eq!(w.get_player_position(), units(0, 0));
    w.update(0, 21);
    assert_eq!(w.get_player_position(), Vec2 { x: 0, y: -21_000 });
}

#[test]
fn drink_quenches_and_empties_bottle() {
    let mut w = World::new();
    w.update(2000, 0);
    assert_eq!(w.get_player().thirst, STAT_FULL - 8000);
    let r = Item::Bottle(true).do_action(&mut w);
    assert_eq!(r, Some(Item::Bottle(false)));
    assert_eq!(w.get_player().thirst, STAT_FULL);
}

#[test]
fn fill_near_water() {
    let mut w = World::with_player(Player::new(), units(200, 185));
    w.insert(Entity::new(EntityKind::Pond(40 * MICRO), units(200, 130))).unwrap();
    assert!(w.water_in_front_of_player());
    let before = w.get_player();
    assert_eq!(Item::Bottle(false).do_action(&mut w), Some(Item::Bottle(true)));
    assert_eq!(w.get_player(), before);
}

#[test]
fn fill_away_from_water() {
    let mut w = World::new();
    assert!(!w.water_in_front_of_player());
    assert_eq!(Item::Bottle(false).do_action(&mut w), Some(Item::Bottle(false)));
}

#[test]
fn fill_on_pond_rim_fails() {
    let mut w = World::with_player(Player::new(), units(200, 190));
    w.insert(Entity::new(EntityKind::Pond(40 * MICRO), units(200, 130))).unwrap();
    assert!(!w.water_in_front_of_player());
    assert_eq!(Item::Bottle(false).do_action(&mut w), Some(Item::Bottle(false)));
}

#[test]
fn inert_items_come_back() {
    let mut w = World::new();
    assert_eq!(Item::Axe.do_action(&mut w), Some(Item::Axe));
    assert_eq!(Item::Berry.do_action(&mut w), Some(Item::Berry));
    assert_eq!(w.get_player(), Player::new());
}

#[test]
fn set_replaces_or_reports_missing() {
    let mut w = World::with_player(Player::new(), units(0, 0));
    let id = w.insert(Entity::new(EntityKind::Stone, units(5, 5))).unwrap();
    let tree = Entity::new(EntityKind::Tree, units(6, 6));
    assert_eq!(w.set(id, tree), Ok(()));
    assert_eq!(w.get(id), Ok(tree));
    assert_eq!(w.set(id + 100, tree), Err(WorldError::EntityNotFound));
    assert_eq!(w.ids().len(), 2);
}

#[test]
fn set_player_keeps_position() {
    let mut w = World::new();
    let mut p = w.get_player();
    p.hunger = 5;
    w.set_player(p);
    assert_eq!(w.get_player().hunger, 5);
    assert_eq!(w.get_player_position(), units(150, 100));
}

#[test]
fn new_world_ponds_in_place() {
    let w = World::new();
    let mut ponds: Vec<(i64, Vec2)> = Vec::new();
    for id in w.ids() {
        let e = w.get(id).unwrap();
        match e.kind {
            EntityKind::Pond(r) => ponds.push((r / MICRO, e.position)),
            EntityKind::Player(p) => {
                assert_eq!(id, w.player_id);
                assert_eq!(p, Player::new());
                assert_eq!(e.position, units(150, 100));
            }
            _ => panic!("unexpected entity"),
        }
    }
    ponds.sort_by_key(|(r, _)| *r);
    assert_eq!(ponds, vec![(40, units(200, 130)), (50, units(240, 180)), (60, units(280, 120))]);
}

#[test]
fn fill_with_probe_on_pond_centre() {
    let mut w = World::new();
    let player = Entity::new(EntityKind::Player(w.get_player()), units(200, 150));
    assert_eq!(w.set(w.player_id, player), Ok(()));
    assert!(w.water_in_front_of_player());
    assert_eq!(Item::Bottle(false).do_action(&mut w), Some(Item::Bottle(true)));
}
