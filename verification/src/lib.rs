//! A time-gated, multi-asset escrow ("clawback") engine.
//!
//! A depositor funds a named escrow that designates a `holder` (the eventual
//! recipient) and a `backup` authority.  Before the escrow's `end_time`,
//! assets may only move between escrows that share the same backup and
//! clawback period; at or after `end_time` the holder gains unrestricted
//! withdrawal rights.  The crate holds the ledger arithmetic, the escrow
//! registry, and the state machine of the six operations, each with a
//! verified contract.

pub mod balance;
pub mod contract;
pub mod error;
pub mod msg;
pub mod state;
