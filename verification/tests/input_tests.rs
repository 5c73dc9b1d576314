use platformer::input::{Button, ButtonSet, ButtonState};

#[test]
fn empty_set_contains_nothing() {
    let set = ButtonSet::new();
    for button in [Button::Left, Button::Right, Button::Up, Button::Down, Button::A, Button::B] {
        assert!(!set.contains(button));
    }
}

#[test]
fn with_adds_buttons() {
    let set = ButtonSet::new().with(Button::A).with(Button::Up);
    assert!(set.contains(Button::A));
    assert!(set.contains(Button::Up));
    assert!(!set.contains(Button::B));
    assert!(!set.contains(Button::Down));
}

#[test]
fn contains_any_needs_a_shared_button() {
    let ab = ButtonSet::new().with(Button::A).with(Button::B);
    let a = ButtonSet::new().with(Button::A);
    let up = ButtonSet::new().with(Button::Up);
    assert!(ab.contains_any(a));
    assert!(a.contains_any(ab));
    assert!(!ab.contains_any(up));
    assert!(!ButtonSet::new().contains_any(ab));
    assert!(!ab.contains_any(ButtonSet::new()));
}

#[test]
fn d_pad_vector_of_single_directions() {
    assert_eq!(ButtonSet::new().d_pad(), [0, 0]);
    assert_eq!(ButtonSet::new().with(Button::Up).d_pad(), [0, -1]);
    assert_eq!(ButtonSet::new().with(Button::Down).d_pad(), [0, 1]);
    assert_eq!(ButtonSet::new().with(Button::Left).d_pad(), [-1, 0]);
    assert_eq!(ButtonSet::new().with(Button::Right).d_pad(), [1, 0]);
}

#[test]
fn d_pad_vector_sums_and_cancels() {
    let rdu = ButtonSet::new().with(Button::Right).with(Button::Down).with(Button::Up);
    assert_eq!(rdu.d_pad(), [1, 0]);
    let lru = ButtonSet::new().with(Button::Left).with(Button::Right).with(Button::Up);
    assert_eq!(lru.d_pad(), [0, -1]);
    let all = lru.with(Button::Down);
    assert_eq!(all.d_pad(), [0, 0]);
}

#[test]
fn button_state_reads_each_set() {
    let state = ButtonState {
        current: ButtonSet::new().with(Button::Right),
        pushed: ButtonSet::new().with(Button::A),
        released: ButtonSet::new().with(Button::B),
    };
    assert!(state.is_pressed(Button::Right));
    assert!(!state.is_pressed(Button::A));
    assert!(state.is_just_pressed(Button::A));
    assert!(!state.is_just_pressed(Button::Right));
    assert!(state.is_just_released(Button::B));
    assert!(!state.is_just_released(Button::A));
    assert!(state.is_any_pressed(ButtonSet::new().with(Button::Right).with(Button::Left)));
    assert!(!state.is_any_pressed(ButtonSet::new().with(Button::Left)));
    assert!(state.is_any_just_pressed(ButtonSet::new().with(Button::A)));
    assert!(state.is_any_just_released(ButtonSet::new().with(Button::B)));
    assert_eq!(state.d_pad(), [1, 0]);
    assert_eq!(state.d_pad_just_pressed(), [0, 0]);
    assert_eq!(state.d_pad_just_released(), [0, 0]);
}

#[test]
fn from_button_is_a_singleton_set() {
    let set = ButtonSet::from(Button::A);
    assert!(set.contains(Button::A));
    assert!(!set.contains(Button::B));
    assert_eq!(set, ButtonSet::new().with(Button::A));
}
