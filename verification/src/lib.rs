//! Diagnostic WebSocket echo endpoint core: a per-connection sequence-gap
//! tracker, a registry of trackers keyed by connection id, and the dispatch
//! policy that decides what each inbound message is answered with.

pub mod tracker;
pub mod textfmt;
pub mod registry;
pub mod probe;
pub mod session;
