use win_key_event::listener::{KeyListener, DEFAULT_POLLING_WAIT};
use win_key_event::transition::KeyEvent;

const DOWN: i16 = i16::MIN;
const UP: i16 = 0;

fn default_codes() -> Vec<i32> {
    let mut codes: Vec<i32> = Vec::new();
    codes.extend(0x30..=0x39);
    codes.extend(0x60..=0x69);
    codes.extend(0x41..=0x5A);
    codes.extend([0xBA, 0xBB, 0xBC, 0xBD, 0xBE, 0xBF, 0xC0, 0xDB, 0xDC, 0xDD, 0xDE]);
    codes.extend([0x20, 0x0D, 0x08, 0x09]);
    codes.extend([0x6A, 0x6B, 0x6D, 0x6E, 0x6F]);
    codes.extend([0xA0, 0xA1, 0x10]);
    codes
}

fn started(vk_codes: Vec<i32>, polling_wait: u64) -> KeyListener {
    let mut listener = KeyListener::new_custom(vk_codes, polling_wait);
    listener.start();
    listener
}

#[test]
fn default_listener_has_one_up_state_per_default_key() {
    let listener = KeyListener::new_default();
    assert_eq!(listener.vk_codes().len(), 69);
    assert_eq!(listener.previous_key_states().len(), listener.vk_codes().len());
    assert!(listener.previous_key_states().iter().all(|down| !down));
    assert_eq!(listener.key_count(), 69);
}

#[test]
fn default_listener_watches_the_default_keys_in_order() {
    let listener = KeyListener::new_default();
    assert_eq!(listener.vk_codes(), &default_codes());
    assert_eq!(listener.vk_codes()[0], 0x30);
    assert_eq!(listener.vk_codes()[57], 0x20);
    assert_eq!(listener.vk_codes()[68], 0x10);
}

#[test]
fn default_listener_polls_every_ten_milliseconds_and_is_not_watching() {
    let listener = KeyListener::new_default();
    assert_eq!(DEFAULT_POLLING_WAIT, 10);
    assert_eq!(listener.polling_wait(), 10);
    assert!(!listener.is_watching());
}

#[test]
fn custom_listener_keeps_codes_and_interval() {
    let listener = KeyListener::new_custom(vec![0x20, 0x1B], 12);
    assert_eq!(listener.vk_codes(), &vec![0x20, 0x1B]);
    assert_eq!(listener.previous_key_states(), &vec![false, false]);
    assert_eq!(listener.polling_wait(), 12);
    assert!(!listener.is_watching());
}

#[test]
fn empty_watch_set_and_zero_interval_are_accepted() {
    let mut listener = KeyListener::new_custom(Vec::new(), 0);
    assert_eq!(listener.key_count(), 0);
    assert_eq!(listener.polling_wait(), 0);
    listener.start();
    assert_eq!(listener.tick(&Vec::new()), Vec::new());
    assert!(listener.is_watching());
}

#[test]
fn duplicate_codes_are_watched_independently() {
    let mut listener = started(vec![0x41, 0x41], 10);
    assert_eq!(
        listener.tick(&vec![DOWN, UP]),
        vec![KeyEvent::Press(0x41)]
    );
    assert_eq!(listener.previous_key_states(), &vec![true, false]);
}

#[test]
fn start_sets_the_flag_only() {
    let mut listener = KeyListener::new_custom(vec![0x20, 0x1B], 12);
    listener.start();
    assert!(listener.is_watching());
    assert_eq!(listener.vk_codes(), &vec![0x20, 0x1B]);
    assert_eq!(listener.previous_key_states(), &vec![false, false]);
    assert_eq!(listener.polling_wait(), 12);
}

#[test]
fn quit_clears_the_flag_only() {
    let mut listener = started(vec![0x20, 0x1B], 12);
    listener.tick(&vec![DOWN, UP]);
    listener.quit();
    assert!(!listener.is_watching());
    assert_eq!(listener.vk_codes(), &vec![0x20, 0x1B]);
    assert_eq!(listener.previous_key_states(), &vec![true, false]);
    assert_eq!(listener.polling_wait(), 12);
}

#[test]
fn quit_twice_is_quit_once() {
    let mut once = started(vec![0x20], 10);
    let mut twice = once.clone();
    once.quit();
    twice.quit();
    twice.quit();
    assert_eq!(once.is_watching(), twice.is_watching());
    assert!(!twice.is_watching());
    assert_eq!(once.vk_codes(), twice.vk_codes());
    assert_eq!(once.previous_key_states(), twice.previous_key_states());
    assert_eq!(once.polling_wait(), twice.polling_wait());
}

#[test]
fn quit_before_start_is_a_no_op() {
    let mut listener = KeyListener::new_custom(vec![0x20], 10);
    listener.quit();
    assert!(!listener.is_watching());
    listener.start();
    assert!(listener.is_watching());
}

#[test]
fn observe_keeps_a_watching_listener_while_the_flag_is_set() {
    let mut listener = started(vec![0x20], 10);
    assert!(listener.observe(true));
    assert!(listener.is_watching());
}

#[test]
fn observe_stops_on_a_cleared_flag_and_never_restarts() {
    let mut listener = started(vec![0x20], 10);
    assert!(!listener.observe(false));
    assert!(!listener.is_watching());
    assert!(!listener.observe(true));
    assert!(!listener.is_watching());
    assert!(!listener.observe(false));
}

#[test]
fn observe_does_not_start_a_fresh_listener() {
    let mut listener = KeyListener::new_custom(vec![0x20], 10);
    assert!(!listener.observe(true));
    assert!(!listener.is_watching());
}

#[test]
fn clone_copies_every_part() {
    let mut listener = started(vec![0x20, 0x1B], 12);
    listener.tick(&vec![UP, DOWN]);
    let mut copy = listener.clone();
    assert_eq!(copy.vk_codes(), listener.vk_codes());
    assert_eq!(copy.previous_key_states(), &vec![false, true]);
    assert_eq!(copy.polling_wait(), 12);
    assert!(copy.is_watching());
    copy.quit();
    assert!(listener.is_watching());
}

#[test]
fn sample_key_emits_on_change_and_always_records() {
    let mut listener = KeyListener::new_custom(vec![0x20, 0x1B], 10);
    assert_eq!(listener.sample_key(1, DOWN), Some(KeyEvent::Press(0x1B)));
    assert_eq!(listener.previous_key_states(), &vec![false, true]);
    assert_eq!(listener.sample_key(1, -1), None);
    assert_eq!(listener.previous_key_states(), &vec![false, true]);
    assert_eq!(listener.sample_key(0, UP), None);
    assert_eq!(listener.sample_key(1, 1), Some(KeyEvent::Release(0x1B)));
    assert_eq!(listener.previous_key_states(), &vec![false, false]);
}

#[test]
fn spacebar_down_down_up_down() {
    let mut listener = started(vec![0x20], 10);
    assert_eq!(listener.polling_wait(), 10);
    assert_eq!(listener.tick(&vec![DOWN]), vec![KeyEvent::Press(0x20)]);
    assert_eq!(listener.tick(&vec![DOWN]), Vec::new());
    assert_eq!(listener.tick(&vec![UP]), vec![KeyEvent::Release(0x20)]);
    assert_eq!(listener.tick(&vec![DOWN]), vec![KeyEvent::Press(0x20)]);
}

#[test]
fn down_up_down_gives_press_release_press() {
    let mut listener = started(vec![0x41], 10);
    let mut emitted = Vec::new();
    for raw in [DOWN, UP, DOWN] {
        emitted.extend(listener.tick(&vec![raw]));
    }
    assert_eq!(
        emitted,
        vec![
            KeyEvent::Press(0x41),
            KeyEvent::Release(0x41),
            KeyEvent::Press(0x41)
        ]
    );
}

#[test]
fn held_keys_emit_nothing_on_later_ticks() {
    let mut listener = started(vec![0x41, 0x42, 0x43], 10);
    assert_eq!(
        listener.tick(&vec![DOWN, UP, DOWN]),
        vec![KeyEvent::Press(0x41), KeyEvent::Press(0x43)]
    );
    for _ in 0..5 {
        assert_eq!(listener.tick(&vec![-1, 1, -2]), Vec::new());
        assert_eq!(listener.previous_key_states(), &vec![true, false, true]);
    }
}

#[test]
fn events_of_one_tick_come_in_watch_set_order() {
    let mut listener = started(vec![0x43, 0x41, 0x42], 10);
    assert_eq!(
        listener.tick(&vec![DOWN, DOWN, DOWN]),
        vec![
            KeyEvent::Press(0x43),
            KeyEvent::Press(0x41),
            KeyEvent::Press(0x42)
        ]
    );
    assert_eq!(
        listener.tick(&vec![UP, DOWN, UP]),
        vec![KeyEvent::Release(0x43), KeyEvent::Release(0x42)]
    );
}

#[test]
fn tick_records_every_sample() {
    let mut listener = started(vec![0x41, 0x42, 0x43], 10);
    listener.tick(&vec![DOWN, UP, DOWN]);
    assert_eq!(listener.previous_key_states(), &vec![true, false, true]);
    listener.tick(&vec![UP, UP, DOWN]);
    assert_eq!(listener.previous_key_states(), &vec![false, false, true]);
}

#[test]
fn no_events_after_quit_even_when_keys_go_down() {
    let mut listener = started(vec![0x20, 0x41], 10);
    assert_eq!(listener.tick(&vec![DOWN, UP]), vec![KeyEvent::Press(0x20)]);
    listener.quit();
    assert_eq!(listener.tick(&vec![UP, DOWN]), Vec::new());
    assert_eq!(listener.tick(&vec![DOWN, DOWN]), Vec::new());
    assert_eq!(listener.previous_key_states(), &vec![true, false]);
}

#[test]
fn a_listener_that_was_never_started_emits_nothing() {
    let mut listener = KeyListener::new_custom(vec![0x20], 10);
    assert_eq!(listener.tick(&vec![DOWN]), Vec::new());
    assert_eq!(listener.previous_key_states(), &vec![false]);
}
