//! The state sampler: what one fresh sample of one key means, given the
//! state the key was last seen in.

use vstd::prelude::*;

verus! {

/// The bit of a raw key state that is set while the key is physically down.
/// It is the sign bit of the 16-bit value; no other bit is interpreted.
pub const KEY_DOWN_MASK: i16 = -32768;

/// A transition of one key, as handed to the callbacks.
#[derive(Clone, Copy, Debug, PartialEq, Eq, Structural)]
pub enum KeyEvent {
    /// The key with this code went from up to down.
    Press(i32),
    /// The key with this code went from down to up.
    Release(i32),
}

/// How a fresh sample of a key relates to the previous one.
#[derive(Clone, Copy, Debug, PartialEq, Eq, Structural)]
pub enum KeyState {
    /// Up before, down now.
    KeyPress,
    /// Down before, up now.
    KeyRelease,
    /// Down before and still down.
    StaticDown,
    /// Up before and still up.
    StaticUp,
}

/// Whether a raw key state says that the key is down: its sign bit is set.
pub open spec fn is_down(raw_state: i16) -> bool {
    raw_state < 0
}

/// The classification of a sample `is_down` against the previous `was_down`.
pub open spec fn classify_spec(is_down: bool, was_down: bool) -> KeyState {
    match (is_down, was_down) {
        (true, false) => KeyState::KeyPress,
        (true, true) => KeyState::StaticDown,
        (false, true) => KeyState::KeyRelease,
        (false, false) => KeyState::StaticUp,
    }
}

/// The event that a classification of the key `vk_code` gives rise to:
/// a change of state is an event, a static state is none.
pub open spec fn event_of(vk_code: i32, key_state: KeyState) -> Option<KeyEvent> {
    match key_state {
        KeyState::KeyPress => Some(KeyEvent::Press(vk_code)),
        KeyState::KeyRelease => Some(KeyEvent::Release(vk_code)),
        KeyState::StaticDown => None,
        KeyState::StaticUp => None,
    }
}

/// The event, if any, that the raw sample `raw_state` of the key `vk_code`
/// gives rise to when the key was last seen as `was_down`.
pub open spec fn sample_event(vk_code: i32, was_down: bool, raw_state: i16) -> Option<KeyEvent> {
    event_of(vk_code, classify_spec(is_down(raw_state), was_down))
}

/// Tests the sign bit of a raw key state.
pub fn is_key_down(raw_state: i16) -> (down: bool)
    ensures
        down == is_down(raw_state),
{
    assert((raw_state & KEY_DOWN_MASK != 0) == (raw_state < 0)) by (bit_vector)
        requires
            KEY_DOWN_MASK == -32768i16,
    ;
    (raw_state & KEY_DOWN_MASK) != 0
}

/// Classifies a sample against the previous one.
pub fn classify(is_down: bool, was_down: bool) -> (key_state: KeyState)
    ensures
        key_state == classify_spec(is_down, was_down),
{
    if is_down {
        if was_down {
            KeyState::StaticDown
        } else {
            KeyState::KeyPress
        }
    } else {
        if was_down {
            KeyState::KeyRelease
        } else {
            KeyState::StaticUp
        }
    }
}

/// Turns a classification into the event to emit, if it is a change.
pub fn key_event(vk_code: i32, key_state: KeyState) -> (event: Option<KeyEvent>)
    ensures
        event == event_of(vk_code, key_state),
{
    match key_state {
        KeyState::KeyPress => Some(KeyEvent::Press(vk_code)),
        KeyState::KeyRelease => Some(KeyEvent::Release(vk_code)),
        KeyState::StaticDown => None,
        KeyState::StaticUp => None,
    }
}

/// Takes the raw state just read for the key at index `i`, records in
/// `previous_key_states` whether the key is down now, and says how that
/// compares with what was recorded before. The record is updated on every
/// call, whether or not the state changed.
pub fn get_key_state(raw_state: i16, i: usize, previous_key_states: &mut Vec<bool>) -> (key_state:
    KeyState)
    requires
        i < old(previous_key_states)@.len(),
    ensures
        final(previous_key_states)@ == old(previous_key_states)@.update(
            i as int,
            is_down(raw_state),
        ),
        key_state == classify_spec(is_down(raw_state), old(previous_key_states)@[i as int]),
{
    let is_down = is_key_down(raw_state);
    let was_down = previous_key_states[i];
    previous_key_states.set(i, is_down);
    classify(is_down, was_down)
}

} // verus!
