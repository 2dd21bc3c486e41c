//! Session engine for a four-player game of 500: lobby admission, the bidding
//! auction with its total order on bids, kitty resolution, and the per-player
//! redacted views that are broadcast after every accepted action.
//!
//! The engine is written as a pure state machine: every transition takes the
//! shared roster and an inbound step and fills an outbox of per-client
//! messages. Delivery over the wire, and the event loop that serializes the
//! inbound stream, live outside this crate.

pub mod aborted;
pub mod api;
pub mod bid_won;
pub mod bidding;
pub mod dealer;
pub mod ids;
pub mod lobby;
pub mod playing;
pub mod session;
pub mod stage;
pub mod types;
