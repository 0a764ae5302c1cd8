//! A line-oriented text-chat relay and its terminal client, as verified logic.
//!
//! `message` holds the wire format, `registry` the relay's connection registry
//! and fan-out, `terminal` the client's scrollable render state. Sockets and
//! terminal control stay with the caller: this crate decides, the caller acts.

pub mod message;
pub mod registry;
pub mod terminal;
