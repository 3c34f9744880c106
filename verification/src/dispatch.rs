//! The dispatcher's step: which callback an event goes to.

use crate::transition::KeyEvent;
use vstd::prelude::*;

verus! {

/// Whether `key_event` may be dispatched to these callbacks: the callback
/// that it goes to accepts the key code that it carries.
pub open spec fn dispatchable<D: Fn(i32), U: Fn(i32)>(
    key_event: KeyEvent,
    key_down_callback: &D,
    key_up_callback: &U,
) -> bool {
    match key_event {
        KeyEvent::Press(vk) => call_requires(*key_down_callback, (vk,)),
        KeyEvent::Release(vk) => call_requires(*key_up_callback, (vk,)),
    }
}

/// Whether the callback that `key_event` goes to has run on the key code
/// that it carries: the press callback for a press, the release callback
/// for a release.
pub open spec fn dispatched<D: Fn(i32), U: Fn(i32)>(
    key_event: KeyEvent,
    key_down_callback: &D,
    key_up_callback: &U,
) -> bool {
    match key_event {
        KeyEvent::Press(vk) => call_ensures(*key_down_callback, (vk,), ()),
        KeyEvent::Release(vk) => call_ensures(*key_up_callback, (vk,), ()),
    }
}

/// Invokes the callback for one event: the press callback with the key code
/// of a press, the release callback with the key code of a release. The call
/// is made here and returns before `dispatch` does.
pub fn dispatch<D: Fn(i32), U: Fn(i32)>(
    key_event: KeyEvent,
    key_down_callback: &D,
    key_up_callback: &U,
)
    requires
        dispatchable(key_event, key_down_callback, key_up_callback),
    ensures
        dispatched(key_event, key_down_callback, key_up_callback),
{
    match key_event {
        KeyEvent::Press(vk) => key_down_callback(vk),
        KeyEvent::Release(vk) => key_up_callback(vk),
    }
}

} // verus!
