use walden::dpad::Dpad;
use walden::game::{Pad, Walden};
use walden::geometry::Vec2;
use walden::item::{Hands, Item};
use walden::player::{Player, STAT_FULL};
use walden::selector::{SelectorEvent, SelectorState};
use walden::ui::{Button, StatIndicator, Text, UIPalette};
use walden::world::World;

fn pad(a: bool, dpad: Option<Dpad>) -> Pad {
    Pad { a, b: false, dpad }
}

#[test]
fn swap_to_active_hand_changes_nothing() {
    let mut g = Walden::new();
    let before = g.world.get_player();
    g.swap_item(before.current_hand);
    assert_eq!(g.world.get_player(), before);
}

#[test]
fn swap_changes_only_active_hand() {
    let mut g = Walden::new();
    let before = g.world.get_player();
    g.swap_item(Dpad::Down);
    let after = g.world.get_player();
    assert_eq!(after.current_hand, Dpad::Down);
    assert_eq!(after.hands, before.hands);
}

#[test]
fn action_with_empty_hand_does_nothing() {
    let mut g = Walden::new();
    let before = g.world.get_player();
    g.trigger_action();
    assert_eq!(g.world.get_player(), before);
}

#[test]
fn drink_from_active_bottle() {
    let mut g = Walden::new();
    g.world.update(3000, 0);
    g.swap_item(Dpad::Left);
    g.trigger_action();
    let p = g.world.get_player();
    assert_eq!(p.thirst, STAT_FULL);
    assert_eq!(p.hands.get(Dpad::Left), Some(Item::Bottle(false)));
    g.trigger_action();
    assert_eq!(g.world.get_player().hands.get(Dpad::Left), Some(Item::Bottle(false)));
}

#[test]
fn tap_a_triggers_action_through_selector() {
    let mut g = Walden::new();
    g.swap_item(Dpad::Left);
    g.world.update(1000, 0);
    g.update(16, Some(pad(true, None)));
    assert_eq!(g.selector.state, SelectorState::Deciding(500));
    assert!(g.button_a.pressed);
    g.update(16, Some(pad(false, None)));
    assert_eq!(g.selector.state, SelectorState::Idle);
    let p = g.world.get_player();
    assert_eq!(p.thirst, STAT_FULL);
    assert_eq!(p.hands.get(Dpad::Left), Some(Item::Bottle(false)));
}

#[test]
fn choose_and_release_swaps_hand() {
    let mut g = Walden::new();
    g.update(16, Some(pad(true, None)));
    g.update(16, Some(pad(true, Some(Dpad::Left))));
    assert_eq!(g.selector.state, SelectorState::ItemChosen);
    let e = g.control(16, pad(false, Some(Dpad::Left)));
    assert_eq!(e, SelectorEvent::SwapItem(Dpad::Left));
    g.apply(e);
    assert_eq!(g.world.get_player().current_hand, Dpad::Left);
}

#[test]
fn steering_follows_pad_when_idle() {
    let mut g = Walden::new();
    g.control(16, pad(false, Some(Dpad::Right)));
    let p = g.world.get_player();
    assert_eq!(p.log_speed, Vec2 { x: 447, y: -894 });
    assert_eq!(p.t, 16);
    assert_eq!(g.selector.player, p);
    assert_eq!(g.indicators[1], StatIndicator::Thirst(p));
}

#[test]
fn short_log_speed_is_stretched() {
    let mut p = Player::new();
    p.steer(Vec2 { x: 0, y: 1000 }, 5);
    assert_eq!(p.log_speed, Vec2 { x: 0, y: -1000 });
    p.steer(Vec2 { x: 2000, y: 0 }, 5);
    assert_eq!(p.log_speed, Vec2 { x: 447, y: -894 });
    p.log_speed = Vec2 { x: 300, y: -400 };
    p.steer(Vec2 { x: 300, y: -400 }, 0);
    assert_eq!(p.log_speed, Vec2 { x: 600, y: -800 });
    assert_eq!(p.t, 10);
}

#[test]
fn camera_moves_a_tenth_of_the_way() {
    let mut g = Walden::new();
    g.follow_camera();
    // The target is -((150, 100) - (160, 120) + (0, -40)) = (10, 60) units.
    assert_eq!(g.camera_pos, Vec2 { x: 1_000_000, y: 6_000_000 });
    g.update(16, None);
    assert_eq!(g.camera_pos, Vec2 { x: 1_900_000, y: 11_400_000 });
}

#[test]
fn gauges_and_buttons() {
    let g = Walden::new();
    assert_eq!(g.indicators[0].stat(), STAT_FULL);
    let mut i = StatIndicator::Thirst(Player::new());
    let mut p = Player::new();
    p.thirst = 12;
    i.set_player(&p);
    assert_eq!(i, StatIndicator::Thirst(p));
    assert_eq!(i.stat(), 12);
    assert!(Button::a().is_a && !Button::b().is_a);
}

#[test]
fn texts() {
    assert_eq!(Text::ButtonA.str(), "A");
    assert_eq!(Text::ButtonB.str(), "B");
    assert_eq!(Text::FillBottle.str(), "...");
    assert_eq!(Text::ButtonA.width(), 10);
    assert_eq!(Text::ButtonB.width(), 11);
    assert_eq!(Text::PickUp.width(), 20);
    let w = World::new();
    assert_eq!(Item::Bottle(true).action_tooltip(&w), Some(Text::DrinkBottle));
    assert_eq!(Item::Bottle(false).action_tooltip(&w), None);
    assert_eq!(Item::Axe.action_tooltip(&w), None);
}

#[test]
fn gauge_colours_and_text_centres() {
    let p = Player::new();
    assert_eq!(StatIndicator::Sleep(p).color(), UIPalette::StatIndicatorSleep);
    assert_eq!(StatIndicator::Thirst(p).color(), UIPalette::StatIndicatorThirst);
    assert_eq!(StatIndicator::Hunger(p).color(), UIPalette::StatIndicatorHunger);
    assert_eq!(Text::ButtonB.center(), Vec2 { x: 5500, y: 8000 });
    assert_eq!(Text::DrinkBottle.center(), Vec2 { x: 10000, y: 8000 });
}

#[test]
fn hands_hold_one_item_each() {
    let mut h = Hands::empty();
    assert_eq!(h.get(Dpad::Up), None);
    h.set(Dpad::Right, Some(Item::Axe));
    h.set(Dpad::Down, Some(Item::Berry));
    h.set(Dpad::Right, Some(Item::Bottle(true)));
    assert_eq!(h.get(Dpad::Right), Some(Item::Bottle(true)));
    assert_eq!(h.get(Dpad::Down), Some(Item::Berry));
    assert_eq!(h.get(Dpad::Left), None);
    h.set(Dpad::Down, None);
    assert_eq!(h.get(Dpad::Down), None);
    assert_eq!(Dpad::Left.vector(), Vec2 { x: -1000, y: 0 });
    assert_eq!(Dpad::Down.vector(), Vec2 { x: 0, y: 1000 });
}

#[test]
fn fresh_game_state() {
    let g = Walden::new();
    let p = Player::new();
    assert_eq!(g.world.get_player(), p);
    assert_eq!(g.world.get_player_position(), Vec2 { x: 150_000_000, y: 100_000_000 });
    assert_eq!(g.world.ids().len(), 4);
    assert_eq!(g.selector.state, SelectorState::Idle);
    assert_eq!(g.selector.choice, None);
    assert_eq!(g.selector.player, p);
    assert_eq!(g.selector.axis, Vec2 { x: 0, y: 0 });
    assert!(!g.button_a.pressed && !g.button_b.pressed);
    assert_eq!(g.camera_pos, Vec2 { x: 0, y: 0 });
    assert_eq!(
        g.indicators,
        vec![StatIndicator::Hunger(p), StatIndicator::Thirst(p), StatIndicator::Sleep(p)]
    );
    assert!(g.indicators.iter().all(|i| i.stat() == STAT_FULL));
}

#[test]
fn fresh_game_swap_up_keeps_player() {
    let mut g = Walden::new();
    g.swap_item(Dpad::Up);
    assert_eq!(g.world.get_player(), Player::new());
}

#[test]
fn equal_games_stay_equal() {
    let mut g1 = Walden::new();
    let mut g2 = Walden::new();
    let ticks = [
        Some(pad(false, Some(Dpad::Right))),
        Some(pad(true, None)),
        Some(pad(true, Some(Dpad::Left))),
        None,
        Some(pad(false, Some(Dpad::Left))),
        Some(pad(true, None)),
        Some(pad(false, None)),
    ];
    for t in ticks {
        g1.update(16, t);
        g2.update(16, t);
        assert_eq!(g1.selector.state, g2.selector.state);
        assert_eq!(g1.world.get_player(), g2.world.get_player());
        assert_eq!(g1.camera_pos, g2.camera_pos);
    }
    assert_eq!(g1.world.get_player().current_hand, Dpad::Left);
    assert_eq!(g1.world.get_player().thirst, STAT_FULL);
    assert_eq!(g1.world.get_player().hands.get(Dpad::Left), Some(Item::Bottle(false)));
}
