//! Idle-accrual and generator-economy engine.
//!
//! Players own generators that produce currency over time, buy further
//! generators on a geometric price curve, and settle accrued rewards into
//! their balance. Every operation is a total, panic-free state transition:
//! it either applies in full or is refused and changes nothing, and which of
//! the two, and with what result, is fixed by a mathematical model of the
//! records.
//!
//! - [`constants`]: the catalog of generator kinds, prices and production
//!   rates.
//! - [`price`]: the price curve, in binary64 arithmetic carried out on
//!   integers.
//! - [`state`]: the records, their views, and the player ledger.
//! - [`engine`]: the operations of the game.
//! - [`model`]: the game as a state machine, and what holds of every state it
//!   can reach.
//! - [`errors`]: why an operation can be refused.

pub mod constants;
pub mod engine;
pub mod errors;
pub mod model;
pub mod price;
pub mod state;
