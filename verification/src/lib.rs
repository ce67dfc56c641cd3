//! Verified core of the AERX social platform contracts on NEAR: the AEX
//! fungible token and the AERX profile/post NFT contract, written as state
//! machines over plain values. Each entry point takes what the runtime
//! reports (caller, deposit, gas, storage, the answers of other contracts)
//! and returns the new state and what the runtime must do next (payments,
//! cross-contract calls, events).
//!
//! - `token`: the AEX token (NEP-141 with registration gifts and earnings
//!   reporting), over the `ledger` of balances.
//! - `profile`: profiles, posts, reposts, charges and earnings.
//! - `metadata`: contract metadata and its validity.
//! - `assoc`, `order`, `numeric`, `text`: keyed lists, text order, decimal
//!   numbers and texts.
//! - `reply`: reading the JSON answers of other contracts.
use vstd::prelude::*;

pub mod assoc;
pub mod ledger;
pub mod metadata;
pub mod numeric;
pub mod order;
pub mod profile;
pub mod reply;
pub mod text;
pub mod token;

verus! {

} // verus!
