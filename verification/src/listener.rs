//! The listener: the watch set, its previous states, the polling interval
//! and the running flag, with the steps that the watch loop takes on them.

use crate::channel::send_transition;
use crate::transition::{get_key_state, is_down, key_event, KeyEvent};
use crate::watch::{lemma_pass_events_ignore_later, pass_events_upto, pass_states, ListenerState};
use tokio::sync::mpsc::UnboundedSender;
use vstd::prelude::*;

verus! {

/// The key codes that a default listener watches, in watch-set order:
/// the digits, the numpad digits, the letters, punctuation, the whitespace
/// and control keys, the numpad operators and the shift keys.
pub open spec fn default_vk_codes() -> Seq<i32> {
    seq![
        0x30, 0x31, 0x32, 0x33, 0x34, 0x35, 0x36, 0x37, 0x38, 0x39,
        0x60, 0x61, 0x62, 0x63, 0x64, 0x65, 0x66, 0x67, 0x68, 0x69,
        0x41, 0x42, 0x43, 0x44, 0x45, 0x46, 0x47, 0x48, 0x49, 0x4A, 0x4B, 0x4C, 0x4D,
        0x4E, 0x4F, 0x50, 0x51, 0x52, 0x53, 0x54, 0x55, 0x56, 0x57, 0x58, 0x59, 0x5A,
        0xBA, 0xBB, 0xBC, 0xBD, 0xBE, 0xBF, 0xC0, 0xDB, 0xDC, 0xDD, 0xDE,
        0x20, 0x0D, 0x08, 0x09,
        0x6A, 0x6B, 0x6D, 0x6E, 0x6F,
        0xA0, 0xA1, 0x10,
    ]
}

/// The polling interval of a default listener, in milliseconds.
pub const DEFAULT_POLLING_WAIT: u64 = 10;

/// Whether `raw_states` holds, for each of `vk_codes` in order, a value that
/// the state query `read_key_state` may return for that key.
pub open spec fn is_reading<Q: Fn(i32) -> i16>(
    read_key_state: &Q,
    vk_codes: Seq<i32>,
    raw_states: Seq<i16>,
) -> bool {
    &&& raw_states.len() == vk_codes.len()
    &&& forall|i: int|
        0 <= i < vk_codes.len() ==> call_ensures(
            *read_key_state,
            (#[trigger] vk_codes[i],),
            raw_states[i],
        )
}

/// A key listener: which keys to watch, what each was last seen as, how
/// long to pause between passes, and whether the watch loop is to run.
pub struct KeyListener {
    vk_codes: Vec<i32>,
    previous_key_states: Vec<bool>,
    polling_wait: u64,
    is_watching: bool,
}

impl View for KeyListener {
    type V = ListenerState;

    closed spec fn view(&self) -> ListenerState {
        ListenerState {
            vk_codes: self.vk_codes@,
            previous_key_states: self.previous_key_states@,
            polling_wait: self.polling_wait,
            is_watching: self.is_watching,
        }
    }
}

impl Clone for KeyListener {
    /// A second listener with the same watch set, previous states, interval
    /// and running flag. The two share nothing afterwards.
    fn clone(&self) -> (copy: KeyListener)
        ensures
            copy@ == self@,
    {
        let vk_codes = self.vk_codes.clone();
        let previous_key_states = self.previous_key_states.clone();
        assert(vk_codes@ =~= self.vk_codes@);
        assert(previous_key_states@ =~= self.previous_key_states@);
        KeyListener {
            vk_codes,
            previous_key_states,
            polling_wait: self.polling_wait,
            is_watching: self.is_watching,
        }
    }
}

impl KeyListener {
    /// A listener for the default key codes with the default interval:
    /// every key up, not watching.
    pub fn new_default() -> (listener: KeyListener)
        ensures
            listener@ == ListenerState::initial(default_vk_codes(), DEFAULT_POLLING_WAIT),
            listener@.wf(),
    {
        let vk_codes: Vec<i32> = vec![
            // 0 - 9
            0x30, 0x31, 0x32, 0x33, 0x34, 0x35, 0x36, 0x37, 0x38, 0x39,
            // 0 - 9 (numpad)
            0x60, 0x61, 0x62, 0x63, 0x64, 0x65, 0x66, 0x67, 0x68, 0x69,
            // a - z
            0x41, 0x42, 0x43, 0x44, 0x45, 0x46, 0x47, 0x48, 0x49, 0x4A, 0x4B, 0x4C, 0x4D,
            0x4E, 0x4F, 0x50, 0x51, 0x52, 0x53, 0x54, 0x55, 0x56, 0x57, 0x58, 0x59, 0x5A,
            // punctuation and symbols, unshifted
            0xBA,  // : ;
            0xBB,  // + =
            0xBC,  // < ,
            0xBD,  // _ -
            0xBE,  // > .
            0xBF,  // ? /
            0xC0,  // ~ `
            0xDB,  // { [
            0xDC,  // | \
            0xDD,  // } ]
            0xDE,  // " '
            0x20,  // space
            0x0D,  // enter
            0x08,  // backspace
            0x09,  // tab
            // numpad operators
            0x6A,  // *
            0x6B,  // +
            0x6D,  // -
            0x6E,  // .
            0x6F,  // /
            // shift
            0xA0,  // left
            0xA1,  // right
            0x10,  // generic
        ];
        assert(vk_codes@ =~= default_vk_codes());
        KeyListener::new_custom(vk_codes, DEFAULT_POLLING_WAIT)
    }

    /// A listener for the given key codes and interval: every key up, not
    /// watching. Neither an empty list nor a zero interval is refused.
    pub fn new_custom(vk_codes: Vec<i32>, polling_wait: u64) -> (listener: KeyListener)
        ensures
            listener@ == ListenerState::initial(vk_codes@, polling_wait),
            listener@.wf(),
    {
        let key_num = vk_codes.len();
        let previous_key_states: Vec<bool> = vec![false; key_num];
        assert(previous_key_states@ =~= Seq::new(vk_codes@.len(), |i: int| false));
        KeyListener { vk_codes, previous_key_states, polling_wait, is_watching: false }
    }

    /// Requests that the watch loop stop: clears the running flag and
    /// touches nothing else. Clearing a flag that is already clear changes
    /// nothing.
    pub fn quit(&mut self)
        ensures
            final(self)@ == old(self)@.stopped(),
    {
        self.is_watching = false;
    }

    /// Marks the beginning of the watch loop: sets the running flag and
    /// touches nothing else.
    pub fn start(&mut self)
        ensures
            final(self)@ == old(self)@.started(),
    {
        self.is_watching = true;
    }

    /// Takes the value of the shared running flag as it was read at the top
    /// of a pass, and says whether the pass is to run. A cleared flag stops
    /// the listener for good; a set flag never restarts a stopped one.
    pub fn observe(&mut self, running: bool) -> (go_on: bool)
        ensures
            final(self)@ == old(self)@.observed(running),
            go_on == (running && old(self)@.is_watching),
    {
        if !running {
            self.quit();
        }
        self.is_watching
    }

    /// Whether the running flag is set.
    pub fn is_watching(&self) -> (watching: bool)
        ensures
            watching == self@.is_watching,
    {
        self.is_watching
    }

    /// The pause between two passes, in milliseconds.
    pub fn polling_wait(&self) -> (millis: u64)
        ensures
            millis == self@.polling_wait,
    {
        self.polling_wait
    }

    /// The watched key codes, in watch-set order.
    pub fn vk_codes(&self) -> (vk_codes: &Vec<i32>)
        ensures
            vk_codes@ == self@.vk_codes,
    {
        &self.vk_codes
    }

    /// For each watched key, whether it was down when last sampled.
    pub fn previous_key_states(&self) -> (states: &Vec<bool>)
        ensures
            states@ == self@.previous_key_states,
    {
        &self.previous_key_states
    }

    /// How many keys are watched.
    pub fn key_count(&self) -> (count: usize)
        ensures
            count == self@.vk_codes.len(),
    {
        self.vk_codes.len()
    }

    /// Takes the raw state just read for the key at index `i`: records
    /// whether the key is down now, and returns the event if that is a
    /// change. The running flag is not consulted: it is read at the top of
    /// a pass, never in the middle of one.
    pub fn sample_key(&mut self, i: usize, raw_state: i16) -> (event: Option<KeyEvent>)
        requires
            old(self)@.wf(),
            i < old(self)@.vk_codes.len(),
        ensures
            final(self)@ == old(self)@.sampled(i as int, raw_state),
            event == old(self)@.sample_event(i as int, raw_state),
    {
        let vk_code = self.vk_codes[i];
        let key_state = get_key_state(raw_state, i, &mut self.previous_key_states);
        key_event(vk_code, key_state)
    }

    /// Runs one pass over the watch set with the samples `raw_states`, one
    /// for each watched key in watch-set order. Every previous state is
    /// replaced by what its sample says, and the changes come back as
    /// events, in watch-set order.
    ///
    /// The running flag is read once, before the first key: a listener that
    /// is not watching takes no sample, changes nothing and emits nothing.
    pub fn tick(&mut self, raw_states: &Vec<i16>) -> (events: Vec<KeyEvent>)
        requires
            old(self)@.wf(),
            old(self)@.accepts(raw_states@),
        ensures
            final(self)@ == old(self)@.after_pass(raw_states@),
            events@ == old(self)@.pass_events(raw_states@),
    {
        let mut events: Vec<KeyEvent> = Vec::new();
        if !self.is_watching {
            return events;
        }
        let key_num = self.key_count();
        let mut i: usize = 0;
        while i < key_num
            invariant
                i <= key_num,
                key_num == raw_states@.len(),
                self@.vk_codes == old(self)@.vk_codes,
                self@.polling_wait == old(self)@.polling_wait,
                self@.is_watching == old(self)@.is_watching,
                self@.previous_key_states.len() == key_num,
                old(self)@.previous_key_states.len() == key_num,
                self@.vk_codes.len() == key_num,
                forall|j: int| 0 <= j < i ==> self@.previous_key_states[j] == is_down(raw_states@[j]),
                forall|j: int|
                    i <= j < key_num ==> self@.previous_key_states[j] == old(
                        self,
                    )@.previous_key_states[j],
                events@ == pass_events_upto(
                    old(self)@.vk_codes,
                    old(self)@.previous_key_states,
                    raw_states@,
                    i as nat,
                ),
            decreases key_num - i,
        {
            let event = self.sample_key(i, raw_states[i]);
            if let Some(e) = event {
                events.push(e);
            }
            i += 1;
        }
        assert(self@.previous_key_states =~= pass_states(raw_states@));
        events
    }

    /// Runs one pass over the watch set as the watch loop does: for each
    /// watched key in turn it asks `read_key_state` for the key's raw
    /// state, records whether the key is down, and hands a change to
    /// `sender` at once. The events come back as well, in the order in
    /// which they were handed over. One that the channel refuses is dropped
    /// and the pass goes on.
    ///
    /// The running flag is read once, before the first key: a listener that
    /// is not watching asks nothing, changes nothing and sends nothing.
    pub fn poll<Q: Fn(i32) -> i16>(
        &mut self,
        read_key_state: &Q,
        sender: &UnboundedSender<KeyEvent>,
    ) -> (events: Vec<KeyEvent>)
        requires
            old(self)@.wf(),
            forall|i: int|
                0 <= i < old(self)@.vk_codes.len() ==> call_requires(
                    *read_key_state,
                    (#[trigger] old(self)@.vk_codes[i],),
                ),
        ensures
            !old(self)@.is_watching ==> final(self)@ == old(self)@ && events@ == Seq::<
                KeyEvent,
            >::empty(),
            old(self)@.is_watching ==> exists|raw_states: Seq<i16>|
                {
                    &&& is_reading(read_key_state, old(self)@.vk_codes, raw_states)
                    &&& final(self)@ == #[trigger] old(self)@.after_pass(raw_states)
                    &&& events@ == old(self)@.pass_events(raw_states)
                },
    {
        let mut events: Vec<KeyEvent> = Vec::new();
        if !self.is_watching {
            return events;
        }
        let key_num = self.key_count();
        let ghost mut raw_states: Seq<i16> = Seq::empty();
        let mut i: usize = 0;
        while i < key_num
            invariant
                i <= key_num,
                self@.vk_codes == old(self)@.vk_codes,
                self@.polling_wait == old(self)@.polling_wait,
                self@.is_watching == old(self)@.is_watching,
                self@.previous_key_states.len() == key_num,
                old(self)@.previous_key_states.len() == key_num,
                self@.vk_codes.len() == key_num,
                raw_states.len() == i,
                forall|j: int|
                    0 <= j < key_num ==> call_requires(
                        *read_key_state,
                        (#[trigger] old(self)@.vk_codes[j],),
                    ),
                forall|j: int|
                    0 <= j < i ==> call_ensures(
                        *read_key_state,
                        (#[trigger] old(self)@.vk_codes[j],),
                        raw_states[j],
                    ),
                forall|j: int| 0 <= j < i ==> self@.previous_key_states[j] == is_down(raw_states[j]),
                forall|j: int|
                    i <= j < key_num ==> self@.previous_key_states[j] == old(
                        self,
                    )@.previous_key_states[j],
                events@ == pass_events_upto(
                    old(self)@.vk_codes,
                    old(self)@.previous_key_states,
                    raw_states,
                    i as nat,
                ),
            decreases key_num - i,
        {
            let vk_code = self.vk_codes[i];
            let raw_state = read_key_state(vk_code);
            let key_state = get_key_state(raw_state, i, &mut self.previous_key_states);
            let sent = send_transition(sender, vk_code, key_state);
            proof {
                lemma_pass_events_ignore_later(
                    old(self)@.vk_codes,
                    old(self)@.previous_key_states,
                    raw_states,
                    raw_states.push(raw_state),
                    i as nat,
                );
                raw_states = raw_states.push(raw_state);
            }
            if let Some(e) = sent {
                events.push(e);
            }
            i += 1;
        }
        assert(self@.previous_key_states =~= pass_states(raw_states));
        assert(self@ == old(self)@.after_pass(raw_states));
        events
    }
}

} // verus!
