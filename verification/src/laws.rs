//! What holds of every listener, every pass and every run of passes.

use crate::transition::{
    classify_spec, is_down, sample_event, KeyEvent, KeyState, KEY_DOWN_MASK,
};
use crate::watch::{pass_events_upto, pass_states, ListenerState};
use vstd::prelude::*;

verus! {

/// Only the sign bit of a raw state is read: the state says that the key
/// is down exactly when that bit is set, so two raw states that agree in it
/// say the same, whatever their other bits hold.
pub proof fn only_the_sign_bit_is_read(raw_state: i16, other_raw_state: i16)
    ensures
        is_down(raw_state) <==> raw_state & KEY_DOWN_MASK != 0,
        raw_state & KEY_DOWN_MASK == other_raw_state & KEY_DOWN_MASK ==> is_down(raw_state)
            == is_down(other_raw_state),
{
    assert((raw_state < 0) == (raw_state & KEY_DOWN_MASK != 0)) by (bit_vector)
        requires
            KEY_DOWN_MASK == -32768i16,
    ;
    assert((other_raw_state < 0) == (other_raw_state & KEY_DOWN_MASK != 0)) by (bit_vector)
        requires
            KEY_DOWN_MASK == -32768i16,
    ;
}

/// Classification is total and follows the truth table: every pair of a
/// current and a previous state has exactly one classification, a press for
/// up-then-down, a release for down-then-up, and a static state otherwise.
pub proof fn classification_is_total(is_down: bool, was_down: bool)
    ensures
        classify_spec(is_down, was_down) == KeyState::KeyPress <==> is_down && !was_down,
        classify_spec(is_down, was_down) == KeyState::StaticDown <==> is_down && was_down,
        classify_spec(is_down, was_down) == KeyState::KeyRelease <==> !is_down && was_down,
        classify_spec(is_down, was_down) == KeyState::StaticUp <==> !is_down && !was_down,
{
}

/// A sample emits an event exactly when it differs from the previous state,
/// and the event says which way the key went.
pub proof fn event_marks_a_change(vk_code: i32, was_down: bool, raw_state: i16)
    ensures
        sample_event(vk_code, was_down, raw_state) is None <==> is_down(raw_state) == was_down,
        sample_event(vk_code, was_down, raw_state) == Some(KeyEvent::Press(vk_code)) <==> is_down(
            raw_state,
        ) && !was_down,
        sample_event(vk_code, was_down, raw_state) == Some(KeyEvent::Release(vk_code)) <==> !is_down(
            raw_state,
        ) && was_down,
{
}

/// A pass keeps a listener well formed.
pub proof fn pass_keeps_well_formed(listener: ListenerState, raw_states: Seq<i16>)
    requires
        listener.wf(),
        listener.accepts(raw_states),
    ensures
        listener.after_pass(raw_states).wf(),
        listener.after_pass(raw_states).vk_codes == listener.vk_codes,
        listener.after_pass(raw_states).is_watching == listener.is_watching,
        listener.after_pass(raw_states).polling_wait == listener.polling_wait,
{
}

/// The keys among the first `n` whose sample differs from their previous
/// state, by index, in ascending order.
pub open spec fn changed_keys_upto(previous_key_states: Seq<bool>, raw_states: Seq<i16>, n: nat) -> Seq<
    int,
>
    decreases n,
{
    if n == 0 {
        Seq::empty()
    } else {
        let i = n - 1;
        let earlier = changed_keys_upto(previous_key_states, raw_states, i as nat);
        if is_down(raw_states[i]) != previous_key_states[i] {
            earlier.push(i)
        } else {
            earlier
        }
    }
}

/// Order preservation within a pass: the events of a pass are the changes
/// of the watched keys, one event for each key that changed and none for
/// any other, in watch-set order.
pub proof fn pass_events_follow_watch_order(
    vk_codes: Seq<i32>,
    previous_key_states: Seq<bool>,
    raw_states: Seq<i16>,
    n: nat,
)
    ensures
        ({
            let events = pass_events_upto(vk_codes, previous_key_states, raw_states, n);
            let keys = changed_keys_upto(previous_key_states, raw_states, n);
            &&& events.len() == keys.len()
            &&& events.len() <= n
            &&& forall|j: int|
                0 <= j < keys.len() ==> 0 <= #[trigger] keys[j] < n && sample_event(
                    vk_codes[keys[j]],
                    previous_key_states[keys[j]],
                    raw_states[keys[j]],
                ) == Some(events[j])
            &&& forall|j: int, k: int| 0 <= j < k < keys.len() ==> keys[j] < keys[k]
            &&& forall|i: int|
                0 <= i < n && is_down(#[trigger] raw_states[i]) != previous_key_states[i]
                    ==> keys.contains(i)
        }),
    decreases n,
{
    if n > 0 {
        let i = n - 1;
        pass_events_follow_watch_order(vk_codes, previous_key_states, raw_states, i as nat);
        let earlier = changed_keys_upto(previous_key_states, raw_states, i as nat);
        let keys = changed_keys_upto(previous_key_states, raw_states, n);
        assert forall|m: int|
            0 <= m < n && is_down(#[trigger] raw_states[m]) != previous_key_states[m] implies keys.contains(
            m,
        ) by {
            if m < i {
                let j = choose|j: int| 0 <= j < earlier.len() && earlier[j] == m;
                assert(keys[j] == m);
            } else {
                assert(keys[keys.len() - 1] == m);
            }
        }
    }
}

/// Order preservation where every watched key changes in one pass: the
/// pass emits one event for each key, and the event at each position is
/// that of the key at the same position of the watch set.
pub proof fn all_changes_come_in_watch_order(listener: ListenerState, raw_states: Seq<i16>)
    requires
        listener.wf(),
        listener.is_watching,
        listener.accepts(raw_states),
        forall|i: int|
            0 <= i < listener.vk_codes.len() ==> is_down(#[trigger] raw_states[i])
                != listener.previous_key_states[i],
    ensures
        listener.pass_events(raw_states).len() == listener.vk_codes.len(),
        forall|i: int|
            0 <= i < listener.vk_codes.len() ==> #[trigger] listener.pass_events(raw_states)[i] == (
            if is_down(raw_states[i]) {
                KeyEvent::Press(listener.vk_codes[i])
            } else {
                KeyEvent::Release(listener.vk_codes[i])
            }),
{
    lemma_all_changed(
        listener.vk_codes,
        listener.previous_key_states,
        raw_states,
        listener.vk_codes.len(),
    );
}

proof fn lemma_all_changed(
    vk_codes: Seq<i32>,
    previous_key_states: Seq<bool>,
    raw_states: Seq<i16>,
    n: nat,
)
    requires
        forall|i: int| 0 <= i < n ==> is_down(#[trigger] raw_states[i]) != previous_key_states[i],
    ensures
        pass_events_upto(vk_codes, previous_key_states, raw_states, n).len() == n,
        forall|i: int|
            0 <= i < n ==> #[trigger] pass_events_upto(
                vk_codes,
                previous_key_states,
                raw_states,
                n,
            )[i] == (if is_down(raw_states[i]) {
                KeyEvent::Press(vk_codes[i])
            } else {
                KeyEvent::Release(vk_codes[i])
            }),
    decreases n,
{
    if n > 0 {
        lemma_all_changed(vk_codes, previous_key_states, raw_states, (n - 1) as nat);
        assert(is_down(raw_states[n - 1]) != previous_key_states[n - 1]);
    }
}

proof fn lemma_no_change_no_events(
    vk_codes: Seq<i32>,
    previous_key_states: Seq<bool>,
    raw_states: Seq<i16>,
    n: nat,
)
    requires
        forall|i: int| 0 <= i < n ==> is_down(#[trigger] raw_states[i]) == previous_key_states[i],
    ensures
        pass_events_upto(vk_codes, previous_key_states, raw_states, n) == Seq::<KeyEvent>::empty(),
    decreases n,
{
    if n > 0 {
        lemma_no_change_no_events(vk_codes, previous_key_states, raw_states, (n - 1) as nat);
        assert(is_down(raw_states[n - 1]) == previous_key_states[n - 1]);
    }
}

/// No duplicate transitions, key by key: a key whose sample in one pass
/// says the same as its sample in the pass before emits nothing in the
/// later pass, whatever the other keys do.
pub proof fn held_key_emits_nothing(
    listener: ListenerState,
    first: Seq<i16>,
    second: Seq<i16>,
    i: int,
)
    requires
        listener.wf(),
        listener.is_watching,
        listener.accepts(first),
        listener.accepts(second),
        0 <= i < listener.vk_codes.len(),
        is_down(first[i]) == is_down(second[i]),
    ensures
        listener.after_pass(first).sample_event(i, second[i]) is None,
        !changed_keys_upto(
            listener.after_pass(first).previous_key_states,
            second,
            listener.vk_codes.len(),
        ).contains(i),
{
    let previous = listener.after_pass(first).previous_key_states;
    let n = listener.vk_codes.len();
    pass_events_follow_watch_order(listener.vk_codes, previous, second, n);
    let keys = changed_keys_upto(previous, second, n);
    if keys.contains(i) {
        let j = choose|j: int| 0 <= j < keys.len() && keys[j] == i;
        assert(sample_event(listener.vk_codes[keys[j]], previous[keys[j]], second[keys[j]]) is Some);
    }
}

/// No duplicate transitions, over any number of passes: while every key
/// keeps the state that a first pass recorded, no later pass emits
/// anything, and the listener stays as the first pass left it.
pub proof fn held_state_emits_nothing(
    listener: ListenerState,
    first: Seq<i16>,
    later: Seq<Seq<i16>>,
)
    requires
        listener.wf(),
        listener.is_watching,
        listener.accepts(first),
        forall|k: int| 0 <= k < later.len() ==> listener.accepts(#[trigger] later[k]),
        forall|k: int, i: int|
            0 <= k < later.len() && 0 <= i < listener.vk_codes.len() ==> is_down(
                #[trigger] later[k][i],
            ) == is_down(first[i]),
    ensures
        listener.after_pass(first).run_events(later) == Seq::<KeyEvent>::empty(),
        listener.after_pass(first).after_run(later) == listener.after_pass(first),
    decreases later.len(),
{
    if later.len() > 0 {
        let held = listener.after_pass(first);
        let next = later.first();
        assert(listener.accepts(next));
        assert forall|i: int| 0 <= i < held.vk_codes.len() implies is_down(#[trigger] next[i])
            == held.previous_key_states[i] by {
            assert(is_down(later[0][i]) == is_down(first[i]));
        }
        lemma_no_change_no_events(
            held.vk_codes,
            held.previous_key_states,
            next,
            held.vk_codes.len(),
        );
        assert(pass_states(next) =~= held.previous_key_states);
        assert(held.after_pass(next) == held);
        let rest = later.drop_first();
        assert forall|k: int, i: int|
            0 <= k < rest.len() && 0 <= i < listener.vk_codes.len() implies is_down(
            #[trigger] rest[k][i],
        ) == is_down(first[i]) by {
            assert(rest[k] == later[k + 1]);
        }
        assert forall|k: int| 0 <= k < rest.len() implies listener.accepts(#[trigger] rest[k]) by {
            assert(rest[k] == later[k + 1]);
        }
        held_state_emits_nothing(listener, first, rest);
        assert(held.run_events(later) =~= Seq::<KeyEvent>::empty());
    }
}

/// The events of a single key that starts out as `was_down` and changes
/// state `len` times: presses and releases in turn, a press first if the
/// key starts out up.
pub open spec fn alternating(vk_code: i32, was_down: bool, len: nat) -> Seq<KeyEvent> {
    Seq::new(
        len,
        |j: int|
            if (j % 2 == 0) != was_down {
                KeyEvent::Press(vk_code)
            } else {
                KeyEvent::Release(vk_code)
            },
    )
}

/// Press and release alternate: whatever a single watched key is sampled
/// as, pass after pass, its events are a press, a release, a press and so
/// on, beginning with a press if the key was up before the first pass and
/// with a release if it was down. The key ends up down exactly when the
/// last event is a press.
pub proof fn press_and_release_alternate(listener: ListenerState, ticks: Seq<Seq<i16>>)
    requires
        listener.wf(),
        listener.vk_codes.len() == 1,
        forall|k: int| 0 <= k < ticks.len() ==> listener.accepts(#[trigger] ticks[k]),
    ensures
        listener.run_events(ticks) == alternating(
            listener.vk_codes[0],
            listener.previous_key_states[0],
            listener.run_events(ticks).len(),
        ),
        listener.after_run(ticks).wf(),
        listener.after_run(ticks).vk_codes == listener.vk_codes,
        listener.after_run(ticks).previous_key_states[0] == (listener.previous_key_states[0] != (
        listener.run_events(ticks).len() % 2 == 1)),
    decreases ticks.len(),
{
    let vk_code = listener.vk_codes[0];
    let was_down = listener.previous_key_states[0];
    if ticks.len() == 0 {
        assert(listener.run_events(ticks) =~= alternating(vk_code, was_down, 0));
    } else {
        let tick = ticks.first();
        let rest = ticks.drop_first();
        let next = listener.after_pass(tick);
        assert(listener.accepts(tick));
        assert forall|k: int| 0 <= k < rest.len() implies next.accepts(#[trigger] rest[k]) by {
            assert(rest[k] == ticks[k + 1]);
        }
        press_and_release_alternate(next, rest);
        let head = listener.pass_events(tick);
        let tail = next.run_events(rest);
        assert(pass_events_upto(listener.vk_codes, listener.previous_key_states, tick, 0)
            == Seq::<KeyEvent>::empty());
        if listener.is_watching && is_down(tick[0]) != was_down {
            assert(head =~= seq![
                if is_down(tick[0]) {
                    KeyEvent::Press(vk_code)
                } else {
                    KeyEvent::Release(vk_code)
                },
            ]);
            assert(next.previous_key_states[0] == !was_down);
            assert(head + tail =~= alternating(vk_code, was_down, tail.len() + 1));
        } else {
            assert(head =~= Seq::<KeyEvent>::empty());
            assert(next.previous_key_states[0] == was_down);
            assert(head + tail =~= tail);
        }
    }
}

/// Down, up, down gives press, release, press: a listener that watches the
/// single key `vk_code`, freshly made and started, emits exactly these three
/// events over three passes that sample the key as down, up and down.
pub proof fn down_up_down_is_press_release_press(
    vk_code: i32,
    polling_wait: u64,
    down: i16,
    up: i16,
    down_again: i16,
)
    requires
        is_down(down),
        !is_down(up),
        is_down(down_again),
    ensures
        ListenerState::initial(seq![vk_code], polling_wait).started().run_events(
            seq![seq![down], seq![up], seq![down_again]],
        ) == seq![KeyEvent::Press(vk_code), KeyEvent::Release(vk_code), KeyEvent::Press(vk_code)],
{
    let listener = ListenerState::initial(seq![vk_code], polling_wait).started();
    let ticks = seq![seq![down], seq![up], seq![down_again]];
    let after_down = listener.after_pass(seq![down]);
    let after_up = after_down.after_pass(seq![up]);
    let after_down_again = after_up.after_pass(seq![down_again]);
    reveal_with_fuel(pass_events_upto, 2);
    assert(listener.pass_events(seq![down]) =~= seq![KeyEvent::Press(vk_code)]);
    assert(after_down.pass_events(seq![up]) =~= seq![KeyEvent::Release(vk_code)]);
    assert(after_up.pass_events(seq![down_again]) =~= seq![KeyEvent::Press(vk_code)]);
    let rest = ticks.drop_first();
    let last = rest.drop_first();
    assert(rest =~= seq![seq![up], seq![down_again]]);
    assert(last =~= seq![seq![down_again]]);
    assert(last.drop_first() =~= Seq::<Seq<i16>>::empty());
    assert(ticks.first() == seq![down]);
    assert(rest.first() == seq![up]);
    assert(last.first() == seq![down_again]);
    assert(after_down_again.run_events(last.drop_first()) =~= Seq::<KeyEvent>::empty());
    assert(after_up.run_events(last) =~= seq![KeyEvent::Press(vk_code)]);
    assert(after_down.run_events(rest) =~= seq![
        KeyEvent::Release(vk_code),
        KeyEvent::Press(vk_code),
    ]);
    assert(listener.run_events(ticks) =~= seq![
        KeyEvent::Press(vk_code),
        KeyEvent::Release(vk_code),
        KeyEvent::Press(vk_code),
    ]);
}

/// Stopping is idempotent: a second stop request changes nothing that the
/// first has not changed already, and a stop request changes the running
/// flag only.
pub proof fn quit_is_idempotent(listener: ListenerState)
    ensures
        listener.stopped().stopped() == listener.stopped(),
        listener.observed(false).observed(false) == listener.observed(false),
        !listener.stopped().is_watching,
        listener.stopped().vk_codes == listener.vk_codes,
        listener.stopped().previous_key_states == listener.previous_key_states,
        listener.stopped().polling_wait == listener.polling_wait,
{
}

/// A stopped listener is not restarted by the running flag: whatever is
/// read at the top of a later pass, it stays stopped.
pub proof fn stopped_stays_stopped(listener: ListenerState, running: bool)
    requires
        !listener.is_watching,
    ensures
        listener.observed(running) == listener,
{
}

/// Silence after a stop: once the running flag is cleared, no pass emits
/// anything or changes anything, whatever the keys are sampled as.
pub proof fn stopped_listener_is_silent(listener: ListenerState, ticks: Seq<Seq<i16>>)
    ensures
        listener.stopped().run_events(ticks) == Seq::<KeyEvent>::empty(),
        listener.stopped().after_run(ticks) == listener.stopped(),
    decreases ticks.len(),
{
    if ticks.len() > 0 {
        let stopped = listener.stopped();
        assert(stopped.after_pass(ticks.first()) == stopped);
        stopped_listener_is_silent(listener, ticks.drop_first());
        assert(stopped.run_events(ticks) =~= Seq::<KeyEvent>::empty());
    }
}

} // verus!
