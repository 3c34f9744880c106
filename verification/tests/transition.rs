use win_key_event::transition::{
    classify, get_key_state, is_key_down, key_event, KeyEvent, KeyState, KEY_DOWN_MASK,
};

#[test]
fn classify_follows_the_truth_table() {
    assert_eq!(classify(true, false), KeyState::KeyPress);
    assert_eq!(classify(true, true), KeyState::StaticDown);
    assert_eq!(classify(false, true), KeyState::KeyRelease);
    assert_eq!(classify(false, false), KeyState::StaticUp);
}

#[test]
fn key_down_mask_is_the_sign_bit() {
    assert_eq!(KEY_DOWN_MASK, i16::MIN);
    assert_eq!(KEY_DOWN_MASK as u16, 0x8000);
}

#[test]
fn only_the_sign_bit_says_down() {
    assert!(is_key_down(i16::MIN));
    assert!(is_key_down(-32767));
    assert!(is_key_down(-1));
    assert!(!is_key_down(0));
    assert!(!is_key_down(1));
    assert!(!is_key_down(0x4000));
    assert!(!is_key_down(i16::MAX));
}

#[test]
fn changes_become_events_and_static_states_do_not() {
    assert_eq!(key_event(0x41, KeyState::KeyPress), Some(KeyEvent::Press(0x41)));
    assert_eq!(key_event(0x41, KeyState::KeyRelease), Some(KeyEvent::Release(0x41)));
    assert_eq!(key_event(0x41, KeyState::StaticDown), None);
    assert_eq!(key_event(0x41, KeyState::StaticUp), None);
}

#[test]
fn get_key_state_classifies_and_records() {
    let mut previous = vec![false, true, false];
    assert_eq!(get_key_state(i16::MIN, 0, &mut previous), KeyState::KeyPress);
    assert_eq!(previous, vec![true, true, false]);
    assert_eq!(get_key_state(0, 1, &mut previous), KeyState::KeyRelease);
    assert_eq!(previous, vec![true, false, false]);
}

#[test]
fn get_key_state_records_static_states_too() {
    let mut previous = vec![true, false];
    assert_eq!(get_key_state(-1, 0, &mut previous), KeyState::StaticDown);
    assert_eq!(get_key_state(1, 1, &mut previous), KeyState::StaticUp);
    assert_eq!(previous, vec![true, false]);
}

#[test]
fn get_key_state_touches_only_its_own_index() {
    let mut previous = vec![false, false, true, true];
    assert_eq!(get_key_state(-1, 3, &mut previous), KeyState::StaticDown);
    assert_eq!(get_key_state(-1, 1, &mut previous), KeyState::KeyPress);
    assert_eq!(previous, vec![false, true, true, true]);
}
