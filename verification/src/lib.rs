//! Connection management for an HTTP client that runs on one thread.
//!
//! The crate holds the decisions of such a client and performs no I/O itself:
//! which destination a URI names, whether an idle connection is reused, how a
//! CONNECT tunnel through a forward proxy is negotiated, and in which order a
//! request is sent. Each protocol is a function from a state and an event to
//! the next state and an action; the caller performs the action and reports
//! what happened.

pub mod addr;
pub mod client;
pub mod connector;
pub mod error;
pub mod key;
pub mod outside;
pub mod pool;
pub mod stream;
pub mod tunnel;
