//! Client-side core of a multi-party shared-clipboard service.
//!
//! The host application feeds in local clipboard changes, polls for remote
//! clips and connectivity transitions, and drives the session state machine
//! from its own event loop. This crate holds the verified logic: the clip
//! value and its newer-than relation, the deduplication store, the backoff
//! counter, the JSON wire codec, the reconnecting session state machine,
//! the keepalive/liveness timer, and the worker decisions that tie them
//! together. The unverified shell (sockets, TLS, threads, timers) lives
//! outside and hands this crate plain values.

pub mod clip;
pub mod codec;
pub mod config;
pub mod keepalive;
pub mod retry;
pub mod session;
pub mod store;
pub mod worker;
