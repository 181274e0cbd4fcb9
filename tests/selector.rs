use walden::dpad::Dpad;
use walden::geometry::Vec2;
use walden::player::Player;
use walden::selector::{next, trace, Input, Selector, SelectorEvent, SelectorState};

fn input(a: bool, dpad: Option<Dpad>, delta: u32) -> Input {
    Input { a, dpad, delta }
}

#[test]
fn idle_transitions() {
    assert_eq!(
        next(SelectorState::Idle, input(true, None, 16)),
        (SelectorState::Deciding(500), SelectorEvent::Nothing)
    );
    assert_eq!(
        next(SelectorState::Idle, input(false, Some(Dpad::Up), 16)),
        (SelectorState::Idle, SelectorEvent::Nothing)
    );
}

#[test]
fn deciding_transitions() {
    assert_eq!(
        next(SelectorState::Deciding(300), input(false, Some(Dpad::Up), 16)),
        (SelectorState::Idle, SelectorEvent::TriggerAction)
    );
    assert_eq!(
        next(SelectorState::Deciding(300), input(true, Some(Dpad::Left), 16)),
        (SelectorState::ItemChosen, SelectorEvent::Nothing)
    );
    assert_eq!(
        next(SelectorState::Deciding(0), input(true, None, 16)),
        (SelectorState::AboutToCancel, SelectorEvent::Nothing)
    );
    assert_eq!(
        next(SelectorState::Deciding(300), input(true, None, 16)),
        (SelectorState::Deciding(284), SelectorEvent::Nothing)
    );
}

#[test]
fn item_chosen_transitions() {
    assert_eq!(
        next(SelectorState::ItemChosen, input(false, Some(Dpad::Right), 16)),
        (SelectorState::Idle, SelectorEvent::SwapItem(Dpad::Right))
    );
    assert_eq!(
        next(SelectorState::ItemChosen, input(true, Some(Dpad::Right), 16)),
        (SelectorState::ItemChosen, SelectorEvent::Nothing)
    );
    assert_eq!(
        next(SelectorState::ItemChosen, input(true, None, 16)),
        (SelectorState::AboutToCancel, SelectorEvent::Nothing)
    );
    assert_eq!(
        next(SelectorState::ItemChosen, input(false, None, 16)),
        (SelectorState::AboutToCancel, SelectorEvent::Nothing)
    );
}

#[test]
fn about_to_cancel_transitions() {
    assert_eq!(
        next(SelectorState::AboutToCancel, input(true, Some(Dpad::Down), 16)),
        (SelectorState::ItemChosen, SelectorEvent::Nothing)
    );
    assert_eq!(
        next(SelectorState::AboutToCancel, input(false, Some(Dpad::Down), 16)),
        (SelectorState::AboutToCancel, SelectorEvent::Nothing)
    );
    assert_eq!(
        next(SelectorState::AboutToCancel, input(false, None, 16)),
        (SelectorState::Idle, SelectorEvent::Nothing)
    );
    assert_eq!(
        next(SelectorState::AboutToCancel, input(true, None, 16)),
        (SelectorState::AboutToCancel, SelectorEvent::Nothing)
    );
}

#[test]
fn holding_a_opens_after_half_a_second() {
    let inputs: Vec<Input> = (0..8).map(|_| input(true, None, 100)).collect();
    let states = trace(SelectorState::Idle, &inputs);
    assert_eq!(
        states,
        vec![
            SelectorState::Deciding(500),
            SelectorState::Deciding(400),
            SelectorState::Deciding(300),
            SelectorState::Deciding(200),
            SelectorState::Deciding(100),
            SelectorState::Deciding(0),
            SelectorState::AboutToCancel,
            SelectorState::AboutToCancel,
        ]
    );
}

#[test]
fn same_inputs_same_trace() {
    let inputs = vec![
        input(true, None, 16),
        input(true, Some(Dpad::Left), 16),
        input(true, None, 16),
        input(true, Some(Dpad::Right), 16),
        input(false, Some(Dpad::Right), 16),
        input(false, None, 16),
    ];
    let a = trace(SelectorState::Idle, &inputs);
    let b = trace(SelectorState::Idle, &inputs);
    assert_eq!(a, b);
    assert_eq!(
        a,
        vec![
            SelectorState::Deciding(500),
            SelectorState::ItemChosen,
            SelectorState::AboutToCancel,
            SelectorState::ItemChosen,
            SelectorState::Idle,
            SelectorState::Idle,
        ]
    );
}

#[test]
fn selector_records_choice_and_damps_axis() {
    let mut s = Selector::new(Player::new());
    assert!(!s.is_visible());
    assert_eq!(s.advance(input(true, Some(Dpad::Right), 16)), SelectorEvent::Nothing);
    assert_eq!(s.choice, None);
    assert_eq!(s.state, SelectorState::Deciding(500));
    assert_eq!(s.advance(input(true, Some(Dpad::Right), 16)), SelectorEvent::Nothing);
    assert_eq!(s.choice, Some(Dpad::Right));
    assert_eq!(s.axis, Vec2 { x: 500, y: 0 });
    assert!(s.is_visible());
    assert_eq!(s.advance(input(false, Some(Dpad::Right), 16)), SelectorEvent::SwapItem(Dpad::Right));
    assert_eq!(s.axis, Vec2 { x: 750, y: 0 });
    assert!(!s.is_visible());
    s.choice = None;
    s.update();
    assert_eq!(s.axis, Vec2 { x: 375, y: 0 });
}
