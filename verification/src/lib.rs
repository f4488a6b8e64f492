//! A verified core for a token-creation event feed.
//!
//! The library classifies raw transaction updates from an upstream stream,
//! extracts `CreateEvent` records, fans them out through a bounded broadcast
//! bus, and renders them as server-sent-event frames.  The surrounding
//! process (network I/O, HTTP serving, task scheduling) lives outside the
//! library and only hands plain values in and out.

pub mod bus;
pub mod classify;
pub mod event;
pub mod search;
pub mod sse;
pub mod supervisor;
pub mod unicode;
pub mod update;
