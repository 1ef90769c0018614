//! The failures an operation can report. Every one is detected before the
//! record changes or any custody instruction is issued.

use vstd::prelude::*;

verus! {

#[derive(Clone, Copy, Debug, PartialEq, Eq, Structural)]
pub enum ErrorCode {
    /// The signer is not the record's update authority, or the record has none.
    SignerMustBeUpdateAuthority,
    /// An update tried to change an amount.
    CannotChangeAmount,
    /// An updated unlock date is not after the current time.
    NewDateMustBeInTheFuture,
    /// An updated unlock date is earlier than the one it replaces.
    NewDateMustBeLaterThanCurrent,
    /// The destination account supplied to a claim is not the record's.
    DestinationMustMatchVestingContract,
    /// The vault supplied to a close is not the record's.
    TokenVaultIsWrong,
    /// The vault still holds tokens.
    TokenVaultNotEmpty,
    /// The mint supplied to a claim is not the record's.
    DestinationMintMismatch,
    /// An update does not have as many entries as the current schedule.
    LengthMismatch,
    /// A schedule to create has no entries.
    EmptySchedule,
    /// The amounts of a schedule to create do not fit in a `u64` together.
    AmountOverflow,
}

} // verus!
