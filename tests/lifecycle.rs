use psy_vesting::custody::{TokenTransfer, TransferAuthority};
use psy_vesting::errors::ErrorCode;
use psy_vesting::pubkey::Pubkey;
use psy_vesting::schedule::{canonicalize, Vest};
use psy_vesting::vesting::{
    close_vesting_contract, create_vesting_contract, transfer_vested, update_vesting_schedule,
    CloseVestingContract, CreateVestingContract, TransferVested, UpdateVestingSchedule,
    VestingContract,
};

const T: i64 = 1_000_000;

fn key(n: u8) -> Pubkey {
    Pubkey::new_from_array([n; 32])
}

fn vest(amount: u64, unlock_date: i64) -> Vest {
    Vest { amount, unlock_date, claimed: false }
}

fn create_ctx(update_authority: Option<Pubkey>) -> CreateVestingContract {
    CreateVestingContract {
        authority: key(1),
        token_src: key(2),
        destination_address: key(3),
        token_mint: key(4),
        token_vault: key(5),
        update_authority,
    }
}

fn created(update_authority: Option<Pubkey>) -> (VestingContract, TokenTransfer) {
    create_vesting_contract(&create_ctx(update_authority), vec![vest(100, T + 10), vest(50, T + 5)])
        .unwrap()
}

fn pairs(schedule: &[Vest]) -> Vec<(u64, i64, bool)> {
    schedule.iter().map(|v| (v.amount, v.unlock_date, v.claimed)).collect()
}

fn claim(record: VestingContract, now: i64) -> (VestingContract, Option<TokenTransfer>) {
    let mut ctx = TransferVested { destination_address: key(3), token_mint: key(4), vesting_contract: record };
    let t = transfer_vested(&mut ctx, 254, now).unwrap();
    (ctx.vesting_contract, t)
}

#[test]
fn create_canonicalizes_and_funds_vault() {
    let (record, transfer) = created(None);
    assert_eq!(pairs(&record.schedule), vec![(50, T + 5, false), (100, T + 10, false)]);
    assert_eq!(transfer.amount, 150);
    assert!(transfer.from == key(2));
    assert!(transfer.to == key(5));
    assert!(matches!(transfer.authority, TransferAuthority::Signer(k) if k == key(1)));
    assert!(record.issuer_address == key(1));
    assert!(record.destination_address == key(3));
    assert!(record.mint_address == key(4));
    assert!(record.token_vault == key(5));
    assert!(record.update_authority.is_unset());
}

#[test]
fn create_total_equals_schedule_sum() {
    let (record, transfer) = created(Some(key(9)));
    let sum: u64 = record.schedule.iter().map(|v| v.amount).sum();
    assert_eq!(transfer.amount, sum);
    assert!(record.update_authority == key(9));
}

#[test]
fn create_clears_claimed_flags() {
    let submitted = vec![Vest { amount: 7, unlock_date: T, claimed: true }];
    let (record, transfer) = create_vesting_contract(&create_ctx(None), submitted).unwrap();
    assert_eq!(pairs(&record.schedule), vec![(7, T, false)]);
    assert_eq!(transfer.amount, 7);
}

#[test]
fn create_rejects_empty_schedule() {
    let r = create_vesting_contract(&create_ctx(None), vec![]);
    assert!(matches!(r, Err(ErrorCode::EmptySchedule)));
}

#[test]
fn create_rejects_overflowing_total() {
    let r = create_vesting_contract(&create_ctx(None), vec![vest(u64::MAX, T), vest(1, T + 1)]);
    assert!(matches!(r, Err(ErrorCode::AmountOverflow)));
}

#[test]
fn create_accepts_largest_total() {
    let (_, transfer) =
        create_vesting_contract(&create_ctx(None), vec![vest(u64::MAX - 1, T), vest(1, T + 1)]).unwrap();
    assert_eq!(transfer.amount, u64::MAX);
}

#[test]
fn canonicalize_keeps_submission_order_for_equal_dates() {
    let s = vec![vest(3, T + 2), vest(1, T), vest(2, T), vest(4, T + 1), vest(5, T)];
    let c = canonicalize(&s);
    let amounts: Vec<u64> = c.iter().map(|v| v.amount).collect();
    assert_eq!(amounts, vec![1, 2, 5, 4, 3]);
}

#[test]
fn canonicalize_twice_is_canonicalize_once() {
    let s = vec![vest(3, T + 2), vest(1, T), vest(2, T), vest(4, -5)];
    let once = canonicalize(&s);
    let twice = canonicalize(&once);
    assert_eq!(once, twice);
    assert_eq!(pairs(&once), vec![(4, -5, false), (1, T, false), (2, T, false), (3, T + 2, false)]);
}

#[test]
fn canonicalize_empty() {
    assert!(canonicalize(&vec![]).is_empty());
}

fn update(record: VestingContract, signer: Pubkey, new: Vec<Vest>, now: i64) -> (UpdateVestingSchedule, Result<(), ErrorCode>) {
    let mut ctx = UpdateVestingSchedule { authority: signer, vesting_contract: record };
    let r = update_vesting_schedule(&mut ctx, new, now);
    (ctx, r)
}

#[test]
fn update_rejects_amount_change() {
    let (record, _) = created(Some(key(9)));
    let (ctx, r) = update(record, key(9), vec![vest(60, T + 5), vest(100, T + 10)], T);
    assert!(matches!(r, Err(ErrorCode::CannotChangeAmount)));
    assert_eq!(pairs(&ctx.vesting_contract.schedule), vec![(50, T + 5, false), (100, T + 10, false)]);
}

#[test]
fn update_rejects_earlier_date() {
    let (record, _) = created(Some(key(9)));
    let (ctx, r) = update(record, key(9), vec![vest(50, T + 3), vest(100, T + 10)], T);
    assert!(matches!(r, Err(ErrorCode::NewDateMustBeLaterThanCurrent)));
    assert_eq!(pairs(&ctx.vesting_contract.schedule), vec![(50, T + 5, false), (100, T + 10, false)]);
}

#[test]
fn update_rejects_date_not_in_future() {
    let (record, _) = created(Some(key(9)));
    let (_, r) = update(record.clone(), key(9), vec![vest(50, T + 6), vest(100, T + 10)], T + 6);
    assert!(matches!(r, Err(ErrorCode::NewDateMustBeInTheFuture)));
    let (_, r) = update(record, key(9), vec![vest(50, T + 6), vest(100, T + 10)], T + 5);
    assert!(r.is_ok());
}

#[test]
fn update_rejects_length_mismatch() {
    let (record, _) = created(Some(key(9)));
    let (_, r) = update(record, key(9), vec![vest(50, T + 6)], T);
    assert!(matches!(r, Err(ErrorCode::LengthMismatch)));
}

#[test]
fn update_rejects_wrong_signer() {
    let (record, _) = created(Some(key(9)));
    let (_, r) = update(record, key(8), vec![vest(50, T + 6), vest(100, T + 10)], T);
    assert!(matches!(r, Err(ErrorCode::SignerMustBeUpdateAuthority)));
}

#[test]
fn update_impossible_without_authority() {
    let (record, _) = created(None);
    let (_, r) = update(record, Pubkey::unset(), vec![vest(50, T + 6), vest(100, T + 10)], T);
    assert!(matches!(r, Err(ErrorCode::SignerMustBeUpdateAuthority)));
}

#[test]
fn update_moves_dates_later_and_keeps_claims() {
    let (record, _) = created(Some(key(9)));
    let (record, _) = claim(record, T + 6);
    // Submitted out of order; the canonical order pairs 50 with 50.
    let (ctx, r) = update(record, key(9), vec![vest(100, T + 20), vest(50, T + 7)], T + 6);
    assert!(r.is_ok());
    assert_eq!(pairs(&ctx.vesting_contract.schedule), vec![(50, T + 7, true), (100, T + 20, false)]);
}

#[test]
fn update_equal_date_is_allowed() {
    let (record, _) = created(Some(key(9)));
    let (ctx, r) = update(record, key(9), vec![vest(50, T + 5), vest(100, T + 12)], T);
    assert!(r.is_ok());
    assert_eq!(pairs(&ctx.vesting_contract.schedule), vec![(50, T + 5, false), (100, T + 12, false)]);
}

#[test]
fn claim_releases_due_vests() {
    let (record, _) = created(None);
    let (record, t) = claim(record, T + 6);
    let t = t.unwrap();
    assert_eq!(t.amount, 50);
    assert!(t.from == key(5));
    assert!(t.to == key(3));
    assert!(matches!(t.authority, TransferAuthority::Vault(a) if a.token_vault == key(5) && a.bump == 254));
    assert_eq!(pairs(&record.schedule), vec![(50, T + 5, true), (100, T + 10, false)]);
}

#[test]
fn claim_on_unlock_date() {
    let (record, _) = created(None);
    let (_, t) = claim(record, T + 5);
    assert_eq!(t.unwrap().amount, 50);
}

#[test]
fn claim_twice_moves_funds_once() {
    let (record, _) = created(None);
    let (record, first) = claim(record, T + 11);
    assert_eq!(first.unwrap().amount, 150);
    let (record, second) = claim(record, T + 11);
    assert!(second.is_none());
    assert_eq!(pairs(&record.schedule), vec![(50, T + 5, true), (100, T + 10, true)]);
}

#[test]
fn claim_before_anything_due() {
    let (record, _) = created(None);
    let (record, t) = claim(record, T);
    assert!(t.is_none());
    assert_eq!(pairs(&record.schedule), vec![(50, T + 5, false), (100, T + 10, false)]);
}

#[test]
fn claim_rejects_wrong_destination() {
    let (record, _) = created(None);
    let mut ctx = TransferVested { destination_address: key(7), token_mint: key(4), vesting_contract: record };
    let r = transfer_vested(&mut ctx, 1, T + 20);
    assert!(matches!(r, Err(ErrorCode::DestinationMustMatchVestingContract)));
    assert!(!ctx.vesting_contract.schedule[0].claimed);
}

#[test]
fn claim_rejects_wrong_mint() {
    let (record, _) = created(None);
    let mut ctx = TransferVested { destination_address: key(3), token_mint: key(7), vesting_contract: record };
    let r = transfer_vested(&mut ctx, 1, T + 20);
    assert!(matches!(r, Err(ErrorCode::DestinationMintMismatch)));
}

#[test]
fn close_only_when_vault_empty() {
    let (record, _) = created(None);
    let (record, _) = claim(record, T + 6);
    let ctx = CloseVestingContract { vesting_contract: record.clone(), token_vault: key(5), token_vault_amount: 100 };
    assert!(matches!(close_vesting_contract(&ctx, 3), Err(ErrorCode::TokenVaultNotEmpty)));
    let (record, t) = claim(record, T + 10);
    assert_eq!(t.unwrap().amount, 100);
    let ctx = CloseVestingContract { vesting_contract: record, token_vault: key(5), token_vault_amount: 0 };
    let c = close_vesting_contract(&ctx, 3).unwrap();
    assert!(c.account == key(5));
    assert!(c.destination == key(1));
    assert!(c.authority.token_vault == key(5));
    assert_eq!(c.authority.bump, 3);
}

#[test]
fn close_rejects_wrong_vault() {
    let (record, _) = created(None);
    let ctx = CloseVestingContract { vesting_contract: record, token_vault: key(6), token_vault_amount: 0 };
    assert!(matches!(close_vesting_contract(&ctx, 3), Err(ErrorCode::TokenVaultIsWrong)));
}

#[test]
fn record_space() {
    assert_eq!(VestingContract::space(0), Some(172));
    assert_eq!(VestingContract::space(2), Some(206));
    assert_eq!(VestingContract::space(usize::MAX), None);
}

#[test]
fn unset_pubkey() {
    assert!(Pubkey::unset().is_unset());
    assert!(!key(1).is_unset());
    let mut b = [0u8; 32];
    b[31] = 1;
    assert!(!Pubkey::new_from_array(b).is_unset());
    assert!(Pubkey::new_from_array(b) != Pubkey::unset());
    assert_eq!(Pubkey::new_from_array(b).to_bytes(), b);
}
