//! Client-side core of a network-fault-injection proxy orchestrator.
//!
//! Test code composes fault effects ("toxics") onto named proxies managed by
//! a remote control service. This crate holds the verified protocol logic:
//! descriptor and configuration records, the commands sent over the control
//! channel and the decisions taken on each reply, the multi-step operations
//! (scoped disable, apply-then-clear, fetch-with-clean-baseline) as explicit
//! state machines, and proofs that those operations achieve their guarantees
//! against any control service that honours the documented wire contract.
//!
//! The conformance module gives the control service a mathematical model;
//! the laws module proves the protocol's guarantees over it; and the service
//! module is an executable in-memory service proved to conform, so tests can
//! drive whole sessions with no network.
//!
//! The unverified shell around this crate performs the HTTP transport and the
//! JSON encoding of the records; every decision about what to send and what a
//! reply means is made here.

pub mod channel;
pub mod client;
pub mod conformance;
pub mod laws;
pub mod proxy;
pub mod service;
pub mod session;
pub mod toxic;
