//! Press and release events from polled keyboard state.
//!
//! A watch loop samples a fixed list of virtual-key codes once per tick and
//! turns the raw, repeated samples into discrete transitions: a key that goes
//! down yields one `Press`, a key that goes up yields one `Release`, and a key
//! that is merely held (or left alone) yields nothing.
//!
//! The crate decides; it does not wait. Reading the hardware, sleeping
//! between ticks and running tasks are left to the caller, who hands a
//! [`listener::KeyListener`] the state query to use and the channel to send
//! on, once per tick.
//!
//! - [`transition`]: what one sample of one key means.
//! - [`watch`]: the model of a listener, of a pass and of a run of passes.
//! - [`listener`]: the listener and the steps of the watch loop.
//! - [`channel`]: handing events to the dispatcher's channel.
//! - [`dispatch`]: handing an event to the right callback.
//! - [`laws`]: what holds of every listener, pass and run.

pub mod channel;
pub mod dispatch;
pub mod laws;
pub mod listener;
pub mod transition;
pub mod watch;
