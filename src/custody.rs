//! Instructions for the token ledger. The library never moves tokens itself:
//! each operation hands back at most one of these, and the host carries it
//! out in the same transaction.

use vstd::prelude::*;
use crate::pubkey::Pubkey;

verus! {

/// The vault's derived signing authority, computed by the host from the
/// seeds `[token_vault, "vaultAuth", bump]`.
#[derive(Clone, Copy, Debug)]
pub struct VaultAuthority {
    pub token_vault: Pubkey,
    pub bump: u8,
}

/// Who authorizes a transfer.
#[derive(Clone, Copy, Debug)]
pub enum TransferAuthority {
    /// A user that signed the transaction.
    Signer(Pubkey),
    /// The vault's derived authority.
    Vault(VaultAuthority),
}

/// Move `amount` tokens from `from` to `to`.
#[derive(Clone, Copy, Debug)]
pub struct TokenTransfer {
    pub from: Pubkey,
    pub to: Pubkey,
    pub authority: TransferAuthority,
    pub amount: u64,
}

/// Close the empty token account `account`, returning its storage deposit to
/// `destination`.
#[derive(Clone, Copy, Debug)]
pub struct CloseVault {
    pub account: Pubkey,
    pub destination: Pubkey,
    pub authority: VaultAuthority,
}

} // verus!
