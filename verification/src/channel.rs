//! The event channel: the sending half of an unbounded tokio channel, which
//! carries the events of a pass from the watch loop to the dispatcher.
//!
//! What the channel holds is shared with the receiving task and cannot be
//! read off a sender, so nothing here states what a send does to it. What
//! is stated is which events were handed over, and in which order.

use crate::transition::{event_of, key_event, KeyEvent, KeyState};
use tokio::sync::mpsc::UnboundedSender;
use vstd::prelude::*;

verus! {

/// `tokio::sync::mpsc::UnboundedSender`, carried through as an opaque value.
#[verifier::external_type_specification]
#[verifier::external_body]
#[verifier::reject_recursive_types(T)]
pub struct ExUnboundedSender<T>(tokio::sync::mpsc::UnboundedSender<T>);

/// Calls `tokio::sync::mpsc::UnboundedSender::send`, which never waits, and
/// tells whether the channel took the event. It refuses one when the
/// receiving half is closed or dropped; whether that is so depends on the
/// receiving task, so nothing is claimed of the answer. (tokio aborts the
/// process should the count of queued messages ever overflow a `usize`.)
#[verifier::external_body]
fn send_event(sender: &UnboundedSender<KeyEvent>, event: KeyEvent) -> (delivered: bool) {
    sender.send(event).is_ok()
}

/// Hands to the channel the event that the classification `key_state` of
/// the key `vk_code` gives rise to, and returns it. A static state sends
/// nothing. An event that the channel refuses, because its receiver is
/// gone, is dropped without further ado.
pub fn send_transition(sender: &UnboundedSender<KeyEvent>, vk_code: i32, key_state: KeyState) -> (sent:
    Option<KeyEvent>)
    ensures
        sent == event_of(vk_code, key_state),
{
    let event = key_event(vk_code, key_state);
    if let Some(e) = event {
        let _ = send_event(sender, e);
    }
    event
}

} // verus!
