//! The vesting record and its four operations: create, update, claim, close.

use vstd::prelude::*;
use crate::custody::{CloseVault, TokenTransfer, TransferAuthority, VaultAuthority};
use crate::errors::ErrorCode;
use crate::pubkey::Pubkey;
use crate::schedule::{
    amounts, canonical, canonicalize, checked_total, claim_due, claimed_at, due_amount, fresh,
    lemma_canonical_fresh_unclaimed, lemma_canonical_sorted, lemma_claim_releases,
    lemma_claim_twice, lemma_no_update_error, lemma_same_amounts, reschedule,
    rescheduled, sorted_by_date, total_amount, unclaimed_amount, update_error, validate_creation,
    validate_update, vest_update_error, Vest,
};

verus! {

/// The persisted state of one escrow.
#[derive(Clone, Debug)]
pub struct VestingContract {
    /// The address that paid for the record and gets its storage back.
    pub issuer_address: Pubkey,
    /// The token account that receives every released amount.
    pub destination_address: Pubkey,
    /// The address allowed to push dates later; unset means never.
    pub update_authority: Pubkey,
    /// The mint of the token being vested.
    pub mint_address: Pubkey,
    /// The token account that holds what has not been released.
    pub token_vault: Pubkey,
    /// The schedule, in canonical order.
    pub schedule: Vec<Vest>,
}

/// Bytes of the record's kind tag.
pub const DISCRIMINATOR_LEN: usize = 8;

/// Bytes of one stored identity.
pub const PUBKEY_LEN: usize = 32;

/// Bytes of one stored entry: amount, unlock date, claimed flag.
pub const VEST_LEN: usize = 17;

/// Bytes of the schedule's length prefix.
pub const SCHEDULE_PREFIX_LEN: usize = 4;

impl VestingContract {
    /// The schedule is sorted by date and its total fits in a `u64`.
    pub open spec fn wf(&self) -> bool {
        &&& sorted_by_date(self.schedule@)
        &&& total_amount(self.schedule@) <= u64::MAX
    }

    /// Whether the record is well formed, as one read back from storage must
    /// be before any operation runs on it.
    pub fn is_well_formed(&self) -> (r: bool)
        ensures
            r == self.wf(),
    {
        let s = &self.schedule;
        let mut k: usize = 1;
        while k < s.len()
            invariant
                1 <= k,
                s@ == self.schedule@,
                forall|i: int, j: int| 0 <= i <= j < k && j < s@.len() ==> s@[i].unlock_date <= s@[j].unlock_date,
            decreases s.len() - k,
        {
            if s[k - 1].unlock_date > s[k].unlock_date {
                assert(!sorted_by_date(self.schedule@)) by {
                    assert(self.schedule@[k - 1].unlock_date > self.schedule@[k as int].unlock_date);
                }
                assert(!self.wf());
                return false;
            }
            k += 1;
        }
        checked_total(s).is_some()
    }

    /// The storage a record with `schedule_len` entries takes: the kind tag,
    /// five identities, then the length-prefixed entries.
    pub fn space(schedule_len: usize) -> (r: Option<usize>)
        ensures
            r matches Some(n) ==> n == 8 + 5 * 32 + 4 + 17 * schedule_len,
            r is None <==> 8 + 5 * 32 + 4 + 17 * schedule_len > usize::MAX,
    {
        let fixed: usize = DISCRIMINATOR_LEN + 5 * PUBKEY_LEN + SCHEDULE_PREFIX_LEN;
        match schedule_len.checked_mul(VEST_LEN) {
            Some(entries) => entries.checked_add(fixed),
            None => None,
        }
    }
}

/// The accounts and signer of a creation.
#[derive(Clone, Copy, Debug)]
pub struct CreateVestingContract {
    /// The issuer, who signs and funds the escrow.
    pub authority: Pubkey,
    /// The issuer's token account that the total is taken from.
    pub token_src: Pubkey,
    /// The token account that receives the released amounts.
    pub destination_address: Pubkey,
    pub token_mint: Pubkey,
    pub token_vault: Pubkey,
    /// Who may later push dates back; `None` makes the schedule immutable.
    pub update_authority: Option<Pubkey>,
}

/// Creates a record for the schedule, in canonical order and with nothing
/// claimed, and the transfer of its total from the issuer into the vault.
/// An empty schedule, or one whose total overflows, is refused.
pub fn create_vesting_contract(ctx: &CreateVestingContract, vesting_schedule: Vec<Vest>) -> (r:
    Result<(VestingContract, TokenTransfer), ErrorCode>)
    ensures
        vesting_schedule@.len() == 0 ==> r == Err::<(VestingContract, TokenTransfer), _>(
            ErrorCode::EmptySchedule,
        ),
        vesting_schedule@.len() > 0 && total_amount(vesting_schedule@) > u64::MAX ==> r == Err::<
            (VestingContract, TokenTransfer),
            _,
        >(ErrorCode::AmountOverflow),
        r is Ok <==> vesting_schedule@.len() > 0 && total_amount(vesting_schedule@) <= u64::MAX,
        r matches Ok((c, t)) ==> {
            &&& c.wf()
            &&& c.issuer_address == ctx.authority
            &&& c.destination_address == ctx.destination_address
            &&& c.mint_address == ctx.token_mint
            &&& c.token_vault == ctx.token_vault
            &&& (match ctx.update_authority {
                Some(a) => c.update_authority == a,
                None => c.update_authority.is_unset_spec(),
            })
            &&& c.schedule@ == canonical(fresh(vesting_schedule@))
            &&& t.from == ctx.token_src
            &&& t.to == ctx.token_vault
            &&& t.authority == TransferAuthority::Signer(ctx.authority)
            &&& t.amount == total_amount(vesting_schedule@)
            &&& t.amount == total_amount(c.schedule@)
            &&& t.amount == unclaimed_amount(c.schedule@)
        },
{
    let mut submitted: Vec<Vest> = Vec::new();
    let mut i: usize = 0;
    while i < vesting_schedule.len()
        invariant
            i <= vesting_schedule.len(),
            submitted@ == fresh(vesting_schedule@.subrange(0, i as int)),
        decreases vesting_schedule.len() - i,
    {
        let v = vesting_schedule[i];
        submitted.push(Vest { amount: v.amount, unlock_date: v.unlock_date, claimed: false });
        proof {
            assert(submitted@ =~= fresh(vesting_schedule@.subrange(0, i + 1)));
        }
        i += 1;
    }
    proof {
        assert(vesting_schedule@.subrange(0, vesting_schedule@.len() as int) =~= vesting_schedule@);
        lemma_canonical_fresh_unclaimed(vesting_schedule@);
        lemma_canonical_sorted(fresh(vesting_schedule@));
    }
    let schedule = canonicalize(&submitted);
    let total = match validate_creation(&schedule) {
        Ok(t) => t,
        Err(e) => return Err(e),
    };
    let update_authority = match ctx.update_authority {
        Some(a) => a,
        None => Pubkey::unset(),
    };
    let contract = VestingContract {
        issuer_address: ctx.authority,
        destination_address: ctx.destination_address,
        update_authority,
        mint_address: ctx.token_mint,
        token_vault: ctx.token_vault,
        schedule,
    };
    let transfer = TokenTransfer {
        from: ctx.token_src,
        to: ctx.token_vault,
        authority: TransferAuthority::Signer(ctx.authority),
        amount: total,
    };
    Ok((contract, transfer))
}

/// The signer and record of an update.
#[derive(Clone, Debug)]
pub struct UpdateVestingSchedule {
    /// The signer of the update.
    pub authority: Pubkey,
    /// The record to update.
    pub vesting_contract: VestingContract,
}

impl UpdateVestingSchedule {
    /// The record has an update authority and the signer is it.
    pub open spec fn signer_may_update(&self) -> bool {
        &&& !self.vesting_contract.update_authority.is_unset_spec()
        &&& self.authority == self.vesting_contract.update_authority
    }

    /// Refuses a signer that is not the record's update authority, and every
    /// signer of a record whose update authority is unset.
    pub fn accounts(&self) -> (r: Result<(), ErrorCode>)
        ensures
            r == (if self.signer_may_update() {
                Ok(())
            } else {
                Err(ErrorCode::SignerMustBeUpdateAuthority)
            }),
    {
        if self.vesting_contract.update_authority.is_unset() || !self.authority.same(
            &self.vesting_contract.update_authority,
        ) {
            return Err(ErrorCode::SignerMustBeUpdateAuthority);
        }
        Ok(())
    }
}

/// The outcome of an update of `ctx` with the canonical schedule `new` at
/// time `now`: the signer is checked first, then the schedule.
pub open spec fn update_outcome(ctx: UpdateVestingSchedule, new: Seq<Vest>, now: i64) -> Result<
    (),
    ErrorCode,
> {
    if !ctx.signer_may_update() {
        Err(ErrorCode::SignerMustBeUpdateAuthority)
    } else {
        match update_error(ctx.vesting_contract.schedule@, new, now) {
            Some(e) => Err(e),
            None => Ok(()),
        }
    }
}

/// Replaces the dates of the schedule with those of `vesting_schedule`, taken
/// in canonical order and matched to the current entries index by index.
/// Amounts may not change, and every new date must lie after `now` and not
/// before the date it replaces. Claimed flags stay with their index.
/// On failure nothing changes.
pub fn update_vesting_schedule(
    ctx: &mut UpdateVestingSchedule,
    vesting_schedule: Vec<Vest>,
    now: i64,
) -> (r: Result<(), ErrorCode>)
    requires
        old(ctx).vesting_contract.wf(),
    ensures
        r == update_outcome(*old(ctx), canonical(vesting_schedule@), now),
        r is Err ==> *final(ctx) == *old(ctx),
        r is Ok ==> {
            &&& final(ctx).authority == old(ctx).authority
            &&& final(ctx).vesting_contract.issuer_address == old(ctx).vesting_contract.issuer_address
            &&& final(ctx).vesting_contract.destination_address
                == old(ctx).vesting_contract.destination_address
            &&& final(ctx).vesting_contract.update_authority
                == old(ctx).vesting_contract.update_authority
            &&& final(ctx).vesting_contract.mint_address == old(ctx).vesting_contract.mint_address
            &&& final(ctx).vesting_contract.token_vault == old(ctx).vesting_contract.token_vault
            &&& final(ctx).vesting_contract.schedule@ == rescheduled(
                old(ctx).vesting_contract.schedule@,
                canonical(vesting_schedule@),
            )
        },
        final(ctx).vesting_contract.wf(),
        unclaimed_amount(final(ctx).vesting_contract.schedule@) == unclaimed_amount(
            old(ctx).vesting_contract.schedule@,
        ),
{
    ctx.accounts()?;
    let schedule = canonicalize(&vesting_schedule);
    validate_update(&ctx.vesting_contract.schedule, &schedule, now)?;
    let updated = reschedule(&ctx.vesting_contract.schedule, &schedule);
    proof {
        let old_s = ctx.vesting_contract.schedule@;
        lemma_no_update_error(old_s, schedule@, now, 0);
        assert forall|i: int| 0 <= i < old_s.len() implies #[trigger] updated@[i].amount
            == old_s[i].amount && updated@[i].claimed == old_s[i].claimed by {
            assert(vest_update_error(old_s[i], schedule@[i], now) is None);
        }
        lemma_same_amounts(updated@, old_s);
        assert(sorted_by_date(updated@));
    }
    ctx.vesting_contract.schedule = updated;
    Ok(())
}

/// An accepted update keeps every amount where it was, so the multiset of
/// amounts, the total and the unclaimed sum stay the same, and it moves no
/// entry's date earlier than the date it had.
pub proof fn lemma_update_keeps_amounts(ctx: UpdateVestingSchedule, submitted: Seq<Vest>, now: i64)
    requires
        update_outcome(ctx, canonical(submitted), now) is Ok,
    ensures
        ({
            let before = ctx.vesting_contract.schedule@;
            let after = rescheduled(before, canonical(submitted));
            &&& after.len() == before.len()
            &&& amounts(after) == amounts(before)
            &&& amounts(after).to_multiset() == amounts(before).to_multiset()
            &&& total_amount(after) == total_amount(before)
            &&& unclaimed_amount(after) == unclaimed_amount(before)
            &&& forall|i: int|
                0 <= i < before.len() ==> before[i].unlock_date <= #[trigger] after[i].unlock_date
                    && after[i].unlock_date > now && after[i].claimed == before[i].claimed
        }),
{
    let before = ctx.vesting_contract.schedule@;
    let new = canonical(submitted);
    let after = rescheduled(before, new);
    lemma_no_update_error(before, new, now, 0);
    assert forall|i: int| 0 <= i < before.len() implies #[trigger] after[i].amount
        == before[i].amount && after[i].claimed == before[i].claimed && before[i].unlock_date
        <= after[i].unlock_date && after[i].unlock_date > now by {
        assert(vest_update_error(before[i], new[i], now) is None);
    }
    lemma_same_amounts(after, before);
    assert(amounts(after) =~= amounts(before));
}

/// The accounts of a claim. Anyone may trigger one: the tokens always go to
/// the record's destination.
#[derive(Clone, Debug)]
pub struct TransferVested {
    /// The token account supplied as destination.
    pub destination_address: Pubkey,
    /// The mint supplied with the claim.
    pub token_mint: Pubkey,
    /// The record to claim from.
    pub vesting_contract: VestingContract,
}

impl TransferVested {
    /// Refuses a destination other than the record's, then a mint other than
    /// the record's.
    pub fn accounts(&self) -> (r: Result<(), ErrorCode>)
        ensures
            r == (if self.destination_address != self.vesting_contract.destination_address {
                Err(ErrorCode::DestinationMustMatchVestingContract)
            } else if self.token_mint != self.vesting_contract.mint_address {
                Err(ErrorCode::DestinationMintMismatch)
            } else {
                Ok(())
            }),
    {
        if !self.destination_address.same(&self.vesting_contract.destination_address) {
            return Err(ErrorCode::DestinationMustMatchVestingContract);
        }
        if !self.token_mint.same(&self.vesting_contract.mint_address) {
            return Err(ErrorCode::DestinationMintMismatch);
        }
        Ok(())
    }
}

/// Releases every unclaimed entry whose date is not after `now`: marks it
/// claimed and returns the transfer of their sum from the vault to the
/// destination, signed by the vault authority. When the due entries sum to
/// zero no transfer is returned.
pub fn transfer_vested(ctx: &mut TransferVested, vault_authority_bump: u8, now: i64) -> (r: Result<
    Option<TokenTransfer>,
    ErrorCode,
>)
    requires
        old(ctx).vesting_contract.wf(),
    ensures
        old(ctx).destination_address != old(ctx).vesting_contract.destination_address ==> r
            == Err::<Option<TokenTransfer>, _>(ErrorCode::DestinationMustMatchVestingContract),
        old(ctx).destination_address == old(ctx).vesting_contract.destination_address
            && old(ctx).token_mint != old(ctx).vesting_contract.mint_address ==> r == Err::<
            Option<TokenTransfer>,
            _,
        >(ErrorCode::DestinationMintMismatch),
        r is Ok <==> old(ctx).destination_address == old(ctx).vesting_contract.destination_address
            && old(ctx).token_mint == old(ctx).vesting_contract.mint_address,
        r is Err ==> *final(ctx) == *old(ctx),
        r matches Ok(t) ==> {
            &&& final(ctx).destination_address == old(ctx).destination_address
            &&& final(ctx).token_mint == old(ctx).token_mint
            &&& final(ctx).vesting_contract.issuer_address == old(ctx).vesting_contract.issuer_address
            &&& final(ctx).vesting_contract.destination_address
                == old(ctx).vesting_contract.destination_address
            &&& final(ctx).vesting_contract.update_authority
                == old(ctx).vesting_contract.update_authority
            &&& final(ctx).vesting_contract.mint_address == old(ctx).vesting_contract.mint_address
            &&& final(ctx).vesting_contract.token_vault == old(ctx).vesting_contract.token_vault
            &&& final(ctx).vesting_contract.schedule@ == claimed_at(
                old(ctx).vesting_contract.schedule@,
                now,
            )
            &&& (t is None <==> due_amount(old(ctx).vesting_contract.schedule@, now) == 0)
            &&& (t matches Some(tr) ==> {
                &&& tr.amount == due_amount(old(ctx).vesting_contract.schedule@, now)
                &&& tr.from == old(ctx).vesting_contract.token_vault
                &&& tr.to == old(ctx).vesting_contract.destination_address
                &&& tr.authority == TransferAuthority::Vault(
                    VaultAuthority {
                        token_vault: old(ctx).vesting_contract.token_vault,
                        bump: vault_authority_bump,
                    },
                )
            })
        },
        final(ctx).vesting_contract.wf(),
        unclaimed_amount(old(ctx).vesting_contract.schedule@) == unclaimed_amount(
            final(ctx).vesting_contract.schedule@,
        ) + match r {
            Ok(Some(tr)) => tr.amount as int,
            _ => 0,
        },
{
    ctx.accounts()?;
    let (schedule, total_vested) = claim_due(&ctx.vesting_contract.schedule, now);
    proof {
        lemma_claim_releases(ctx.vesting_contract.schedule@, now);
        lemma_claim_twice(ctx.vesting_contract.schedule@, now);
    }
    ctx.vesting_contract.schedule = schedule;
    if total_vested == 0 {
        return Ok(None);
    }
    let vault = ctx.vesting_contract.token_vault;
    Ok(
        Some(
            TokenTransfer {
                from: vault,
                to: ctx.vesting_contract.destination_address,
                authority: TransferAuthority::Vault(
                    VaultAuthority { token_vault: vault, bump: vault_authority_bump },
                ),
                amount: total_vested,
            },
        ),
    )
}

/// The accounts of a close.
#[derive(Clone, Debug)]
pub struct CloseVestingContract {
    /// The record to close.
    pub vesting_contract: VestingContract,
    /// The vault account supplied.
    pub token_vault: Pubkey,
    /// The balance of the supplied vault.
    pub token_vault_amount: u64,
}

/// Allows closing only the record's own vault, and only once it is empty;
/// returns the instruction that closes the vault and refunds its storage to
/// the issuer. The host then deletes the record, refunding the issuer too.
pub fn close_vesting_contract(ctx: &CloseVestingContract, vault_authority_bump: u8) -> (r: Result<
    CloseVault,
    ErrorCode,
>)
    ensures
        ctx.token_vault != ctx.vesting_contract.token_vault ==> r == Err::<CloseVault, _>(
            ErrorCode::TokenVaultIsWrong,
        ),
        ctx.token_vault == ctx.vesting_contract.token_vault && ctx.token_vault_amount > 0 ==> r
            == Err::<CloseVault, _>(ErrorCode::TokenVaultNotEmpty),
        r is Ok <==> ctx.token_vault == ctx.vesting_contract.token_vault && ctx.token_vault_amount
            == 0,
        r matches Ok(c) ==> {
            &&& c.account == ctx.vesting_contract.token_vault
            &&& c.destination == ctx.vesting_contract.issuer_address
            &&& c.authority == (VaultAuthority {
                token_vault: ctx.vesting_contract.token_vault,
                bump: vault_authority_bump,
            })
        },
{
    if !ctx.vesting_contract.token_vault.same(&ctx.token_vault) {
        return Err(ErrorCode::TokenVaultIsWrong);
    }
    if ctx.token_vault_amount > 0 {
        return Err(ErrorCode::TokenVaultNotEmpty);
    }
    Ok(
        CloseVault {
            account: ctx.vesting_contract.token_vault,
            destination: ctx.vesting_contract.issuer_address,
            authority: VaultAuthority {
                token_vault: ctx.vesting_contract.token_vault,
                bump: vault_authority_bump,
            },
        },
    )
}

} // verus!
