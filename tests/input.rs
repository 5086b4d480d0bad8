use jump_game::input::{Button, Edge, InputTracker, KeyEvent, KeyState};

#[test]
fn repeated_presses_give_one_transition() {
    let mut t = InputTracker::new();
    assert_eq!(t.on_event(Button::Left, Edge::Press), Some(KeyEvent { button: Button::Left, edge: Edge::Press }));
    assert_eq!(t.on_event(Button::Left, Edge::Press), None);
    assert_eq!(t.on_event(Button::Left, Edge::Press), None);
    assert!(t.snapshot().left);
    assert_eq!(
        t.on_event(Button::Left, Edge::Release),
        Some(KeyEvent { button: Button::Left, edge: Edge::Release })
    );
    assert_eq!(t.on_event(Button::Left, Edge::Release), None);
    assert_eq!(t.snapshot(), KeyState::none());
}

#[test]
fn release_without_press_is_ignored() {
    let mut t = InputTracker::new();
    assert_eq!(t.on_event(Button::Jump, Edge::Release), None);
    assert_eq!(t.snapshot(), KeyState::none());
}

#[test]
fn buttons_are_independent() {
    let mut t = InputTracker::new();
    t.on_event(Button::Jump, Edge::Press);
    t.on_event(Button::Right, Edge::Press);
    assert_eq!(t.snapshot(), KeyState { left: false, right: true, jump: true });
    t.on_event(Button::Jump, Edge::Release);
    assert_eq!(t.snapshot(), KeyState { left: false, right: true, jump: false });
}

#[test]
fn key_state_apply_and_query() {
    let mut k = KeyState::none();
    k.apply(KeyEvent { button: Button::Right, edge: Edge::Press });
    assert!(k.is_held(Button::Right));
    assert!(!k.is_held(Button::Left));
    k.apply(KeyEvent { button: Button::Right, edge: Edge::Release });
    assert!(!k.is_held(Button::Right));
}
