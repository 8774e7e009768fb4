//! A client-side message-bus library over a log-structured, consumer-group
//! pub/sub store (a Redis-stream-like backend).
//!
//! Producers append envelopes to named streams, consumer-group members read
//! new entries with at-least-once delivery, and consumers acknowledge
//! processed entries. The core is a verified engine state machine that
//! multiplexes publish requests, acknowledge requests and group-read results
//! into one ordered event loop; an unverified adapter drives the machine
//! against a real backend connection.

pub mod backend;
pub mod bootstrap;
pub mod channel;
pub mod codec;
pub mod config;
pub mod engine;
pub mod error;
pub mod fake;
pub mod naming;
pub mod stream;
