use iso_store::input::{
    update_input_action_state, BoundKey, BoundMouseButton, ButtonStates, InputAction,
    InputActionState, InputBinding, InputBindings,
};

fn buttons(pressed: Vec<InputBinding>, just_pressed: Vec<InputBinding>, just_released: Vec<InputBinding>) -> ButtonStates {
    ButtonStates {
        pressed,
        just_pressed,
        just_released,
    }
}

#[test]
fn default_bindings_cover_every_action_once() {
    let b = InputBindings::default();
    assert_eq!(b.map.len(), 15);
    assert!(b.map.contains(&(InputAction::QuickSave, InputBinding::Key(BoundKey::F5))));
    assert!(b.map.contains(&(InputAction::QuickLoad, InputBinding::Key(BoundKey::F8))));
    assert!(b.map.contains(&(InputAction::PrimaryClick, InputBinding::Mouse(BoundMouseButton::Left))));
    assert!(b.map.contains(&(InputAction::Rotate, InputBinding::Key(BoundKey::KeyR))));
}

#[test]
fn bindings_answer_from_the_button_states() {
    let mut b = InputBindings::default();
    b.insert(InputAction::Rotate, InputBinding::Mouse(BoundMouseButton::Right));
    let s = buttons(
        vec![InputBinding::Mouse(BoundMouseButton::Right)],
        vec![InputBinding::Key(BoundKey::Escape)],
        vec![InputBinding::Key(BoundKey::F5)],
    );
    assert!(b.pressed(InputAction::Rotate, &s));
    assert!(b.pressed(InputAction::SecondaryClick, &s));
    assert!(!b.pressed(InputAction::PrimaryClick, &s));
    assert!(b.just_pressed(InputAction::Cancel, &s));
    assert!(!b.just_pressed(InputAction::Confirm, &s));
    assert!(b.just_released(InputAction::QuickSave, &s));
    assert!(!b.just_released(InputAction::QuickLoad, &s));
}

#[test]
fn action_state_is_rebuilt_each_frame() {
    let b = InputBindings::default();
    let mut state = InputActionState {
        pressed: vec![InputAction::ToolBuild],
        just_pressed: vec![InputAction::ToolBuild],
        just_released: vec![],
    };
    let s = buttons(
        vec![InputBinding::Key(BoundKey::Digit2), InputBinding::Mouse(BoundMouseButton::Left)],
        vec![InputBinding::Key(BoundKey::Digit2)],
        vec![InputBinding::Key(BoundKey::Digit4)],
    );
    update_input_action_state(&b, &s, &mut state);
    assert!(state.pressed(InputAction::ToolMove));
    assert!(state.pressed(InputAction::PrimaryClick));
    assert!(!state.pressed(InputAction::ToolBuild));
    assert!(state.just_pressed(InputAction::ToolMove));
    assert!(!state.just_pressed(InputAction::PrimaryClick));
    assert!(state.just_released(InputAction::ToolBuild));
    assert_eq!(state.pressed.len(), 2);
}
