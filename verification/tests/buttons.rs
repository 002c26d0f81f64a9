use pongi_collision::button::GameButton;

#[test]
fn new_button_is_released_with_no_transitions() {
    let b = GameButton::new();
    assert!(!b.is_pressed);
    assert_eq!(b.num_state_transitions, 0);
}

#[test]
fn set_state_counts_only_changes() {
    let mut b = GameButton::new();
    b.set_state(true);
    assert!(b.is_pressed);
    assert_eq!(b.num_state_transitions, 1);
    b.set_state(true);
    assert_eq!(b.num_state_transitions, 1);
    b.set_state(false);
    assert!(!b.is_pressed);
    assert_eq!(b.num_state_transitions, 2);
}

#[test]
fn clear_transitions_keeps_the_state() {
    let mut b = GameButton::new();
    b.set_state(true);
    b.clear_transitions();
    assert!(b.is_pressed);
    assert_eq!(b.num_state_transitions, 0);
}

#[test]
fn toggle_flips_and_counts() {
    let mut b = GameButton::new();
    b.toggle();
    assert!(b.is_pressed);
    assert_eq!(b.num_state_transitions, 1);
    b.toggle();
    assert!(!b.is_pressed);
    assert_eq!(b.num_state_transitions, 2);
}
