//! A non-fungible-token ledger for a message-driven actor runtime, together
//! with the game-hub contract that mints through it.
//!
//! The crate holds the contract-level state machines only: token ownership,
//! monotonic id allocation, the scheduled metadata-update chain, and the hub's
//! keyed-map bookkeeping. Host concerns (message transport, event emission,
//! delayed self-messages) stay outside; every operation takes the caller and
//! the host-supplied values as plain arguments and returns what the host must
//! do next.

pub mod auth;
pub mod digest;
pub mod errors;
pub mod events;
pub mod hub;
pub mod hub_events;
pub mod laws;
pub mod ledger;
pub mod pmap;
pub mod principal;
pub mod state;
pub mod token;
pub mod updater;
