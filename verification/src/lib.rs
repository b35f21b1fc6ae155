//! Core of a stopwatch: an elapsed-time accumulator, a three-state machine
//! driving it, and a lap ledger.
//!
//! Time never flows inside this crate. Every operation that depends on the
//! clock takes the current instant as a millisecond reading, and the caller
//! (the UI shell) is responsible for handing in readings from a monotonic
//! clock. This keeps the whole timing core a pure state machine that can be
//! verified and tested without any clock present.

pub mod controller;
pub mod display;
pub mod timer;
