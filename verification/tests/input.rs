use sword_arena::geom::Vector2;
use sword_arena::input::{ButtonState, ButtonValue, PlayerInput};

#[test]
fn a_new_input_is_neutral() {
    let inp = PlayerInput::new();
    assert_eq!(inp.id, 0);
    assert!(!inp.attack);
    assert_eq!(inp.move_amount, Vector2 { x: 0, y: 0 });
    assert_eq!(inp.direction, 0);
}

#[test]
fn coalesce_keeps_attacks_sticky_and_movement_latest() {
    let mut acc = PlayerInput::new();
    acc.id = 7;
    let mut newer = PlayerInput::new();
    newer.id = 7;
    newer.attack = true;
    newer.move_amount = Vector2 { x: 5, y: -5 };
    newer.direction = 3;
    acc.coalesce(newer);
    assert!(acc.attack);
    assert_eq!(acc.move_amount, Vector2 { x: 5, y: -5 });
    assert_eq!(acc.direction, 3);
    // A later sample without an attack does not un-press the attack.
    let mut third = PlayerInput::new();
    third.id = 7;
    acc.coalesce(third);
    assert!(acc.attack);
    assert_eq!(acc.move_amount, Vector2 { x: 0, y: 0 });
    assert_eq!(acc.id, 7);
}

#[test]
fn button_values_and_states_are_distinct() {
    assert_ne!(ButtonState::Pressed, ButtonState::Released);
    assert_ne!(ButtonValue::Up, ButtonValue::Down);
    assert_ne!(ButtonValue::Left, ButtonValue::Right);
    assert_ne!(ButtonValue::Attack, ButtonValue::Quit);
}
