//! Core of a centralized event fabric for multi-process fuzzing.
//!
//! A tree of fuzzer worker processes exchanges tagged byte messages over a
//! shared-memory transport.  Secondary workers forward every novel test case
//! to a centralized broker; a distinguished main evaluator re-executes the
//! forwarded inputs against its authoritative corpus and republishes only the
//! accepted ones.  This crate holds the verified core of that design: the
//! event model and its wire codec, the broker routing policy, the client-side
//! firer and processor state machines, the adaptive-serialization policy, and
//! the restart/resume protocol for staged work.

pub mod broker;
pub mod codec;
pub mod compress;
pub mod errors;
pub mod events;
pub mod manager;
pub mod restart;
pub mod sim;
pub mod stages;
pub mod state;
pub mod wire;
