//! A token-vesting escrow: a fixed quantity of one token is locked for a
//! destination and released according to a schedule of unlock dates.
//!
//! The library decides; the host executes. Every operation takes the record
//! and plain values read from the ledger, and hands back the new record and
//! the custody instruction (if any) that the host must carry out.

use vstd::prelude::*;

pub mod custody;
pub mod errors;
pub mod pubkey;
pub mod schedule;
pub mod vesting;

verus! {

} // verus!
