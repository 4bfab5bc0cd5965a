//! Authorization and risk-control core of a value-transfer ledger.
//!
//! The crate decides whether a proposed balance movement (a transfer or a
//! vesting claim) may proceed and, if so, applies it exactly once: a
//! height-versioned balance ledger with point-in-time queries, a risk engine
//! enforcing per-transaction ceilings, rolling-volume caps, nonce sequencing
//! and cooling periods, a vesting engine computing time-linear entitlements,
//! and a signature-based authorization module.

pub mod contract;
pub mod error;
pub mod ledger;
pub mod messages;
pub mod security;
pub mod state;
pub mod txlog;
pub mod validation;
pub mod vesting;

use vstd::prelude::*;

verus! {

/// Block context an operation executes under: the host ledger's
/// monotonically increasing height and the block time in seconds.
#[derive(Clone, Copy, Debug)]
pub struct Env {
    pub height: u64,
    pub time: u64,
}

} // verus!
