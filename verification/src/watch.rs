//! The mathematical model of the watch loop: what a listener is, what one
//! pass over its keys emits, and what a run of several passes emits.
//!
//! A pass takes one raw sample per watched key, in watch-set order.

use crate::transition::{is_down, sample_event, KeyEvent};
use vstd::prelude::*;

verus! {

/// Whether each key is down, sample by sample: what a pass records.
pub open spec fn pass_states(raw_states: Seq<i16>) -> Seq<bool> {
    Seq::new(raw_states.len(), |i: int| is_down(raw_states[i]))
}

/// The events that the first `n` keys of a pass emit, in watch-set order.
pub open spec fn pass_events_upto(
    vk_codes: Seq<i32>,
    previous_key_states: Seq<bool>,
    raw_states: Seq<i16>,
    n: nat,
) -> Seq<KeyEvent>
    decreases n,
{
    if n == 0 {
        Seq::empty()
    } else {
        let i = n - 1;
        let earlier = pass_events_upto(vk_codes, previous_key_states, raw_states, i as nat);
        match sample_event(vk_codes[i], previous_key_states[i], raw_states[i]) {
            Some(event) => earlier.push(event),
            None => earlier,
        }
    }
}

/// The events of the first `n` keys depend on the first `n` samples only.
pub proof fn lemma_pass_events_ignore_later(
    vk_codes: Seq<i32>,
    previous_key_states: Seq<bool>,
    raw_states: Seq<i16>,
    other_raw_states: Seq<i16>,
    n: nat,
)
    requires
        n <= raw_states.len(),
        n <= other_raw_states.len(),
        forall|i: int| 0 <= i < n ==> raw_states[i] == other_raw_states[i],
    ensures
        pass_events_upto(vk_codes, previous_key_states, raw_states, n) == pass_events_upto(
            vk_codes,
            previous_key_states,
            other_raw_states,
            n,
        ),
    decreases n,
{
    if n > 0 {
        lemma_pass_events_ignore_later(
            vk_codes,
            previous_key_states,
            raw_states,
            other_raw_states,
            (n - 1) as nat,
        );
    }
}

/// A listener as a plain value.
pub struct ListenerState {
    /// The watched key codes, in watch-set order.
    pub vk_codes: Seq<i32>,
    /// For each watched key, whether it was down when last sampled.
    pub previous_key_states: Seq<bool>,
    /// The pause between two passes, in milliseconds.
    pub polling_wait: u64,
    /// The running flag.
    pub is_watching: bool,
}

impl ListenerState {
    /// Every watched key has exactly one previous state.
    pub open spec fn wf(self) -> bool {
        self.vk_codes.len() == self.previous_key_states.len()
    }

    /// A listener for `vk_codes` as it is created: every key up, not watching.
    pub open spec fn initial(vk_codes: Seq<i32>, polling_wait: u64) -> ListenerState {
        ListenerState {
            vk_codes,
            previous_key_states: Seq::new(vk_codes.len(), |i: int| false),
            polling_wait,
            is_watching: false,
        }
    }

    /// The listener with its running flag set.
    pub open spec fn started(self) -> ListenerState {
        ListenerState { is_watching: true, ..self }
    }

    /// The listener with its running flag cleared.
    pub open spec fn stopped(self) -> ListenerState {
        ListenerState { is_watching: false, ..self }
    }

    /// The listener after the flag value `running` was read at the top of a
    /// pass: a cleared flag stops it, a set flag changes nothing.
    pub open spec fn observed(self, running: bool) -> ListenerState {
        if running {
            self
        } else {
            self.stopped()
        }
    }

    /// Whether `raw_states` holds one sample for each watched key.
    pub open spec fn accepts(self, raw_states: Seq<i16>) -> bool {
        raw_states.len() == self.vk_codes.len()
    }

    /// The listener after the key at index `i` was sampled as `raw_state`.
    pub open spec fn sampled(self, i: int, raw_state: i16) -> ListenerState {
        ListenerState {
            previous_key_states: self.previous_key_states.update(i, is_down(raw_state)),
            ..self
        }
    }

    /// The event, if any, that sampling the key at index `i` as `raw_state`
    /// emits.
    pub open spec fn sample_event(self, i: int, raw_state: i16) -> Option<KeyEvent> {
        sample_event(self.vk_codes[i], self.previous_key_states[i], raw_state)
    }

    /// The events that one pass with the samples `raw_states` emits. A
    /// listener that is not watching emits nothing.
    pub open spec fn pass_events(self, raw_states: Seq<i16>) -> Seq<KeyEvent> {
        if self.is_watching {
            pass_events_upto(
                self.vk_codes,
                self.previous_key_states,
                raw_states,
                self.vk_codes.len(),
            )
        } else {
            Seq::empty()
        }
    }

    /// The listener after one pass with the samples `raw_states`. A listener
    /// that is not watching samples nothing and stays as it is.
    pub open spec fn after_pass(self, raw_states: Seq<i16>) -> ListenerState {
        if self.is_watching {
            ListenerState { previous_key_states: pass_states(raw_states), ..self }
        } else {
            self
        }
    }

    /// The events that the passes `ticks` emit one after the other, each
    /// pass starting from the states that the pass before it recorded.
    pub open spec fn run_events(self, ticks: Seq<Seq<i16>>) -> Seq<KeyEvent>
        decreases ticks.len(),
    {
        if ticks.len() == 0 {
            Seq::empty()
        } else {
            self.pass_events(ticks.first()) + self.after_pass(ticks.first()).run_events(
                ticks.drop_first(),
            )
        }
    }

    /// The listener after the passes `ticks`.
    pub open spec fn after_run(self, ticks: Seq<Seq<i16>>) -> ListenerState
        decreases ticks.len(),
    {
        if ticks.len() == 0 {
            self
        } else {
            self.after_pass(ticks.first()).after_run(ticks.drop_first())
        }
    }
}

} // verus!
