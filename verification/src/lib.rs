//! Decision logic of a relay that keeps two live Twitch feeds open and fans
//! their events out to subscribers on an internal message bus.
//!
//! Everything here works on plain values: the program around the library
//! owns sockets, timers and the bus, and asks the library what to do next.

use vstd::prelude::*;

pub mod address;
pub mod chat;
pub mod config;
pub mod control;
pub mod events;
pub mod heartbeat;
pub mod irc;
pub mod log;
pub mod pubsub;
pub mod random;
pub mod registry;
pub mod session;
pub mod tags;
pub mod text;
pub mod writer;

verus! {

/// The most attempts in a row that a session makes to open its feed.
pub const MAX_RETRIES: u64 = 5;

} // verus!
