use ramp_solana::codec::{decode_state, RECORD_LEN};
use ramp_solana::errors::RampError;
use ramp_solana::instructions::{
    AddAssetsInstruction, InitializeProgramInstruction, Medium, OffRampDepositInstruction,
    OffRampDepositNativeInstruction, OnRampWithdrawInstruction, OnRampWithdrawNativeInstruction,
    Region, SetActiveInstruction, SetAssetFeeInstruction, SetNativeFeePercentageInstruction,
    SetOwnerInstruction,
};
use ramp_solana::processor::{
    add_assets, initialize_program, off_ramp_deposit, off_ramp_deposit_native, off_ramp_deposit_token_22,
    onramp_withdraw, onramp_withdraw_native, plan_add_assets, plan_off_ramp_deposit,
    plan_off_ramp_deposit_native, plan_onramp_withdraw, plan_remove_assets, remove_assets,
    set_active, set_asset_fee, set_native_fee_percentage, set_owner, Caller, TransferRequest,
    deposit_notification, native_deposit_notification, token_22_deposit_notification,
};
use ramp_solana::pubkey::Pubkey;
use std::collections::HashMap;

fn key(n: u8) -> Pubkey {
    Pubkey::new_from_array([n; 32])
}

const RAMP: u8 = 1;
const OWNER: u8 = 2;
const VAULT: u8 = 3;
const ASSET: u8 = 4;
const OWNER_TOKENS: u8 = 5;
const USER: u8 = 6;
const USER_TOKENS: u8 = 7;

fn owner() -> Caller {
    Caller { key: key(OWNER), is_signer: true }
}

/// Balances held outside the ledger, moved by transfer requests.
struct Host {
    balances: HashMap<[u8; 32], u64>,
}

impl Host {
    fn new() -> Host {
        let mut balances = HashMap::new();
        balances.insert([OWNER_TOKENS; 32], 1_000_000);
        balances.insert([USER_TOKENS; 32], 1_000_000);
        Host { balances }
    }

    fn balance(&self, k: &Pubkey) -> u64 {
        *self.balances.get(&k.to_bytes()).unwrap_or(&0)
    }

    fn transfer(&mut self, t: &TransferRequest) -> bool {
        let from = self.balance(&t.source);
        if from < t.amount {
            return false;
        }
        self.balances.insert(t.source.to_bytes(), from - t.amount);
        let to = self.balance(&t.destination);
        self.balances.insert(t.destination.to_bytes(), to + t.amount);
        true
    }
}

fn initialized(native_fee_percentage: u128) -> Vec<u8> {
    let mut record = vec![0u8; RECORD_LEN];
    let args = InitializeProgramInstruction { bump: 255, vault_address: key(VAULT), native_fee_percentage };
    assert_eq!(initialize_program(&mut record, &key(OWNER), &args), Ok(()));
    record
}

fn list(record: &mut Vec<u8>, host: &mut Host, asset: Pubkey, fee_percentage: u128, initial_amount: u64) -> Result<(), RampError> {
    let args = AddAssetsInstruction { initial_amount, fee_percentage };
    let request = plan_add_assets(record, &owner(), &key(RAMP), &token_program(), &asset, &key(OWNER_TOKENS), &args)?;
    let transferred = host.transfer(&request);
    add_assets(record, &owner(), &asset, &args, transferred)
}

fn deposit_args(amount: u64) -> OffRampDepositInstruction {
    OffRampDepositInstruction { amount, region: Region::KEN, medium: Medium::Primary, data: vec![1, 2, 3] }
}

fn deposit(record: &mut Vec<u8>, host: &mut Host, asset: Pubkey, amount: u64) -> Result<(), RampError> {
    let args = deposit_args(amount);
    let request = plan_off_ramp_deposit(record, &key(RAMP), &token_program(), &asset, &key(USER), &key(USER_TOKENS), &args)?;
    let transferred = host.transfer(&request);
    off_ramp_deposit(record, &asset, &args, transferred)
}

fn token_program() -> Pubkey {
    Pubkey::new_from_array(spl_token_interface::ID.to_bytes())
}

fn custody_under(asset: &Pubkey, program: &Pubkey) -> Pubkey {
    let ramp = solana_program::pubkey::Pubkey::new_from_array(key(RAMP).to_bytes());
    let mint = solana_program::pubkey::Pubkey::new_from_array(asset.to_bytes());
    let program = solana_program::pubkey::Pubkey::new_from_array(program.to_bytes());
    let address = spl_associated_token_account_interface::address::get_associated_token_address_with_program_id(
        &ramp, &mint, &program,
    );
    Pubkey::new_from_array(address.to_bytes())
}

fn custody(asset: &Pubkey) -> Pubkey {
    custody_under(asset, &token_program())
}

#[test]
fn test_initialize_ramp() {
    let record = initialized(10);
    let state = decode_state(&record).unwrap();
    assert!(state.owner == key(OWNER));
    assert!(state.vault_address == key(VAULT));
    assert!(!state.is_active);
    assert_eq!(state.native_fee_percentage, 10);
    assert!(state.get_assets().is_empty());
}

#[test]
fn initialize_twice_fails() {
    let mut record = initialized(10);
    let before = record.clone();
    let args = InitializeProgramInstruction { bump: 1, vault_address: key(9), native_fee_percentage: 5 };
    assert_eq!(initialize_program(&mut record, &key(9), &args), Err(RampError::AccountAlreadyInitialized));
    assert_eq!(record, before);
}

#[test]
fn initialize_needs_room_and_takes_any_native_fee() {
    let args = InitializeProgramInstruction { bump: 1, vault_address: key(VAULT), native_fee_percentage: 5 };
    let mut short = vec![0u8; RECORD_LEN - 1];
    assert_eq!(initialize_program(&mut short, &key(OWNER), &args), Err(RampError::RentOrSpaceError));
    assert_eq!(short, vec![0u8; RECORD_LEN - 1]);
    let high = InitializeProgramInstruction { bump: 1, vault_address: key(VAULT), native_fee_percentage: 101 };
    let mut record = vec![0u8; RECORD_LEN];
    assert_eq!(initialize_program(&mut record, &key(OWNER), &high), Ok(()));
    assert_eq!(decode_state(&record).unwrap().native_fee_percentage, 101);
}

#[test]
fn test_set_active() {
    let mut record = initialized(10);
    assert_eq!(set_active(&mut record, &owner(), &SetActiveInstruction { is_active: true }), Ok(()));
    assert!(decode_state(&record).unwrap().is_active);
    assert_eq!(set_active(&mut record, &owner(), &SetActiveInstruction { is_active: false }), Ok(()));
    assert!(!decode_state(&record).unwrap().is_active);
}

#[test]
fn lib_test_add_asset() {
    let mut record = initialized(10);
    let mut host = Host::new();
    assert_eq!(list(&mut record, &mut host, key(ASSET), 10, 100000000), Err(RampError::TransferFailed));
    assert!(decode_state(&record).unwrap().get_assets().is_empty());
    host.balances.insert([OWNER_TOKENS; 32], 100000000);
    assert_eq!(list(&mut record, &mut host, key(ASSET), 10, 100000000), Ok(()));
    let state = decode_state(&record).unwrap();
    assert_eq!(state.get_assets(), vec![key(ASSET)]);
    assert_eq!(state.get_asset_info_ref(&key(ASSET)).unwrap().asset_fee_percentage, 10);
    assert_eq!(host.balance(&custody(&key(ASSET))), 100000000);
    assert_eq!(host.balance(&key(OWNER_TOKENS)), 0);
}

#[test]
fn test_set_asset_fee() {
    let mut record = initialized(10);
    let mut host = Host::new();
    list(&mut record, &mut host, key(ASSET), 10, 100).unwrap();
    let args = SetAssetFeeInstruction { asset_mint: key(ASSET), fee_percentage: 10 };
    assert_eq!(set_asset_fee(&mut record, &owner(), &args), Ok(()));
    let args = SetAssetFeeInstruction { asset_mint: key(ASSET), fee_percentage: 25 };
    assert_eq!(set_asset_fee(&mut record, &owner(), &args), Ok(()));
    assert_eq!(decode_state(&record).unwrap().get_asset_info_ref(&key(ASSET)).unwrap().asset_fee_percentage, 25);
    let missing = SetAssetFeeInstruction { asset_mint: key(9), fee_percentage: 25 };
    assert_eq!(set_asset_fee(&mut record, &owner(), &missing), Err(RampError::AssetNotFound));
}

#[test]
fn lib_test_remove_asset() {
    let mut record = initialized(10);
    let mut host = Host::new();
    host.balances.insert([OWNER_TOKENS; 32], 100000000);
    list(&mut record, &mut host, key(ASSET), 10, 100000000).unwrap();
    let request = plan_remove_assets(&record, &owner(), &key(RAMP), &token_program(), &key(ASSET), &key(OWNER_TOKENS), host.balance(&custody(&key(ASSET))))
        .unwrap()
        .unwrap();
    assert!(request.source == custody(&key(ASSET)));
    assert_eq!(request.amount, 100000000);
    let swept = host.transfer(&request);
    assert_eq!(remove_assets(&mut record, &owner(), &key(ASSET), swept), Ok(()));
    assert!(decode_state(&record).unwrap().get_assets().is_empty());
    assert_eq!(host.balance(&key(OWNER_TOKENS)), 100000000);
    assert_eq!(host.balance(&custody(&key(ASSET))), 0);
}

#[test]
fn remove_asset_with_empty_custody_needs_no_transfer() {
    let mut record = initialized(10);
    let mut host = Host::new();
    list(&mut record, &mut host, key(ASSET), 10, 0).unwrap();
    let plan = plan_remove_assets(&record, &owner(), &key(RAMP), &token_program(), &key(ASSET), &key(OWNER_TOKENS), 0);
    assert!(plan.unwrap().is_none());
    assert_eq!(remove_assets(&mut record, &owner(), &key(ASSET), true), Ok(()));
}

#[test]
fn failed_sweep_keeps_the_asset() {
    let mut record = initialized(10);
    let mut host = Host::new();
    list(&mut record, &mut host, key(ASSET), 10, 50).unwrap();
    let before = record.clone();
    assert_eq!(remove_assets(&mut record, &owner(), &key(ASSET), false), Err(RampError::TransferFailed));
    assert_eq!(record, before);
}

#[test]
fn test_set_owner() {
    let mut record = initialized(10);
    assert_eq!(set_owner(&mut record, &owner(), &SetOwnerInstruction { new_owner: key(9) }), Ok(()));
    assert!(decode_state(&record).unwrap().owner == key(9));
}

#[test]
fn test_set_native_fee() {
    let mut record = initialized(10);
    let args = SetNativeFeePercentageInstruction { fee_percentage: 20 };
    assert_eq!(set_native_fee_percentage(&mut record, &owner(), &args), Ok(()));
    assert_eq!(decode_state(&record).unwrap().native_fee_percentage, 20);
    let high = SetNativeFeePercentageInstruction { fee_percentage: 101 };
    assert_eq!(set_native_fee_percentage(&mut record, &owner(), &high), Ok(()));
    let state = decode_state(&record).unwrap();
    assert_eq!(state.native_fee_percentage, 101);
    assert!(state.owner == key(OWNER));
    assert!(!state.is_active);
}

#[test]
fn scenario_deposit_accrues_fee_and_custody() {
    let mut record = initialized(0);
    let mut host = Host::new();
    assert_eq!(set_active(&mut record, &owner(), &SetActiveInstruction { is_active: true }), Ok(()));
    assert_eq!(list(&mut record, &mut host, key(ASSET), 10, 1000), Ok(()));
    assert_eq!(deposit(&mut record, &mut host, key(ASSET), 100), Ok(()));
    let state = decode_state(&record).unwrap();
    assert_eq!(state.get_asset_info_ref(&key(ASSET)).unwrap().asset_revenue, 10);
    assert_eq!(host.balance(&custody(&key(ASSET))), 1100);
}

#[test]
fn scenario_fee_above_bound_lists_nothing() {
    let mut record = initialized(0);
    let mut host = Host::new();
    assert_eq!(list(&mut record, &mut host, key(ASSET), 150, 10), Err(RampError::InvalidFeePercentage));
    assert!(decode_state(&record).unwrap().get_assets().is_empty());
    assert_eq!(host.balance(&key(OWNER_TOKENS)), 1_000_000);
    assert_eq!(host.balance(&custody(&key(ASSET))), 0);
}

#[test]
fn scenario_second_listing_of_an_asset_fails() {
    let mut record = initialized(0);
    let mut host = Host::new();
    assert_eq!(list(&mut record, &mut host, key(ASSET), 10, 10), Ok(()));
    assert_eq!(list(&mut record, &mut host, key(ASSET), 20, 10), Err(RampError::AssetAlreadyExists));
    assert_eq!(decode_state(&record).unwrap().get_assets(), vec![key(ASSET)]);
    assert_eq!(host.balance(&custody(&key(ASSET))), 10);
}

#[test]
fn scenario_removing_an_unlisted_asset_fails() {
    let record = initialized(0);
    let plan = plan_remove_assets(&record, &owner(), &key(RAMP), &token_program(), &key(ASSET), &key(OWNER_TOKENS), 500);
    assert_eq!(plan.err(), Some(RampError::AssetNotFound));
    let mut record = record;
    let before = record.clone();
    assert_eq!(remove_assets(&mut record, &owner(), &key(ASSET), true), Err(RampError::AssetNotFound));
    assert_eq!(record, before);
}

#[test]
fn scenario_old_owner_loses_rights() {
    let mut record = initialized(0);
    assert_eq!(set_owner(&mut record, &owner(), &SetOwnerInstruction { new_owner: key(9) }), Ok(()));
    let before = record.clone();
    assert_eq!(set_owner(&mut record, &owner(), &SetOwnerInstruction { new_owner: key(OWNER) }), Err(RampError::Unauthorized));
    assert_eq!(record, before);
}

#[test]
fn non_owner_and_unsigned_callers_are_refused() {
    let mut record = initialized(0);
    let mut host = Host::new();
    list(&mut record, &mut host, key(ASSET), 10, 10).unwrap();
    let before = record.clone();
    let stranger = Caller { key: key(9), is_signer: true };
    let unsigned = Caller { key: key(OWNER), is_signer: false };
    for (caller, error) in [(stranger, RampError::Unauthorized), (unsigned, RampError::NotSigner)] {
        assert_eq!(set_owner(&mut record, &caller, &SetOwnerInstruction { new_owner: key(9) }), Err(error));
        assert_eq!(set_active(&mut record, &caller, &SetActiveInstruction { is_active: true }), Err(error));
        let fee = SetNativeFeePercentageInstruction { fee_percentage: 5 };
        assert_eq!(set_native_fee_percentage(&mut record, &caller, &fee), Err(error));
        let asset_fee = SetAssetFeeInstruction { asset_mint: key(ASSET), fee_percentage: 5 };
        assert_eq!(set_asset_fee(&mut record, &caller, &asset_fee), Err(error));
        let add = AddAssetsInstruction { initial_amount: 1, fee_percentage: 5 };
        assert_eq!(add_assets(&mut record, &caller, &key(8), &add, true), Err(error));
        assert_eq!(remove_assets(&mut record, &caller, &key(ASSET), true), Err(error));
        assert_eq!(record, before);
    }
}

#[test]
fn inactive_ledger_refuses_deposits_and_withdrawals() {
    let mut record = initialized(10);
    let mut host = Host::new();
    list(&mut record, &mut host, key(ASSET), 10, 1000).unwrap();
    let before = record.clone();
    assert_eq!(deposit(&mut record, &mut host, key(ASSET), 100), Err(RampError::ProgramNotActive));
    assert_eq!(deposit(&mut record, &mut host, key(9), 100), Err(RampError::ProgramNotActive));
    let native = OffRampDepositNativeInstruction { amount: 100, region: Region::NGA, medium: Medium::Secondary, data: vec![] };
    assert_eq!(off_ramp_deposit_native(&mut record, &native, true), Err(RampError::ProgramNotActive));
    assert_eq!(onramp_withdraw(&record, &key(ASSET), true), Err(RampError::ProgramNotActive));
    let withdraw = OnRampWithdrawNativeInstruction { amount: 1 };
    assert_eq!(onramp_withdraw_native(&record, &owner(), &withdraw, 10, 0), Err(RampError::ProgramNotActive));
    assert_eq!(onramp_withdraw_native(&record, &owner(), &withdraw, 10, u64::MAX), Err(RampError::ProgramNotActive));
    assert_eq!(record, before);
}

#[test]
fn deposits_accrue_saturating_revenue() {
    let mut record = initialized(0);
    let mut host = Host::new();
    set_active(&mut record, &owner(), &SetActiveInstruction { is_active: true }).unwrap();
    list(&mut record, &mut host, key(ASSET), 30, 0).unwrap();
    let mut expected: u128 = 0;
    for amount in [10u64, 7, 1000, 3] {
        assert_eq!(deposit(&mut record, &mut host, key(ASSET), amount), Ok(()));
        expected = expected.saturating_add(amount as u128 * 30 / 100);
        let revenue = decode_state(&record).unwrap().get_asset_info_ref(&key(ASSET)).unwrap().asset_revenue;
        assert_eq!(revenue, expected);
    }
    assert_eq!(expected, 3 + 2 + 300);
}

#[test]
fn failed_deposit_transfer_accrues_nothing() {
    let mut record = initialized(0);
    let mut host = Host::new();
    set_active(&mut record, &owner(), &SetActiveInstruction { is_active: true }).unwrap();
    list(&mut record, &mut host, key(ASSET), 10, 0).unwrap();
    let before = record.clone();
    assert_eq!(deposit(&mut record, &mut host, key(ASSET), 2_000_000), Err(RampError::TransferFailed));
    assert_eq!(record, before);
    assert_eq!(deposit(&mut record, &mut host, key(9), 10), Err(RampError::AssetNotFound));
}

#[test]
fn token_22_deposit_accrues_like_any_deposit() {
    let mut record = initialized(0);
    let mut host = Host::new();
    set_active(&mut record, &owner(), &SetActiveInstruction { is_active: true }).unwrap();
    list(&mut record, &mut host, key(ASSET), 50, 0).unwrap();
    assert_eq!(off_ramp_deposit_token_22(&mut record, &key(ASSET), &deposit_args(10), true), Ok(()));
    assert_eq!(decode_state(&record).unwrap().get_asset_info_ref(&key(ASSET)).unwrap().asset_revenue, 5);
}

#[test]
fn deposit_goes_to_the_custody_account() {
    let mut record = initialized(0);
    let mut host = Host::new();
    set_active(&mut record, &owner(), &SetActiveInstruction { is_active: true }).unwrap();
    list(&mut record, &mut host, key(ASSET), 10, 0).unwrap();
    let request = plan_off_ramp_deposit(&record, &key(RAMP), &token_program(), &key(ASSET), &key(USER), &key(USER_TOKENS), &deposit_args(5)).unwrap();
    assert!(request.destination == custody(&key(ASSET)));
    assert!(request.destination != key(RAMP));
    assert!(request.source == key(USER_TOKENS));
    assert!(request.authority == key(USER));
    assert_eq!(request.amount, 5);
}

#[test]
fn native_deposit_accrues_native_revenue() {
    let mut record = initialized(10);
    set_active(&mut record, &owner(), &SetActiveInstruction { is_active: true }).unwrap();
    let args = OffRampDepositNativeInstruction { amount: 1000, region: Region::GHN, medium: Medium::Tertiary, data: vec![9] };
    let request = plan_off_ramp_deposit_native(&record, &key(RAMP), &key(USER), &args).unwrap();
    assert!(request.destination == key(RAMP));
    assert_eq!(request.amount, 1000);
    assert_eq!(off_ramp_deposit_native(&mut record, &args, false), Err(RampError::TransferFailed));
    assert_eq!(off_ramp_deposit_native(&mut record, &args, true), Ok(()));
    assert_eq!(decode_state(&record).unwrap().native_revenue, 100);
}

#[test]
fn withdraw_releases_custody_of_listed_assets() {
    let mut record = initialized(0);
    let mut host = Host::new();
    set_active(&mut record, &owner(), &SetActiveInstruction { is_active: true }).unwrap();
    list(&mut record, &mut host, key(ASSET), 10, 1000).unwrap();
    let args = OnRampWithdrawInstruction { amount: 400 };
    let request = plan_onramp_withdraw(&record, &key(RAMP), &token_program(), &key(ASSET), &key(USER_TOKENS), &args).unwrap();
    assert!(request.source == custody(&key(ASSET)));
    assert!(request.authority == key(RAMP));
    let transferred = host.transfer(&request);
    assert_eq!(onramp_withdraw(&record, &key(ASSET), transferred), Ok(()));
    assert_eq!(host.balance(&custody(&key(ASSET))), 600);
    assert_eq!(onramp_withdraw(&record, &key(ASSET), false), Err(RampError::TransferFailed));
    let missing = plan_onramp_withdraw(&record, &key(RAMP), &token_program(), &key(9), &key(USER_TOKENS), &args);
    assert_eq!(missing.err(), Some(RampError::AssetNotFound));
}

#[test]
fn native_withdraw_moves_balances_for_the_owner_only() {
    let mut record = initialized(0);
    set_active(&mut record, &owner(), &SetActiveInstruction { is_active: true }).unwrap();
    let args = OnRampWithdrawNativeInstruction { amount: 30 };
    assert_eq!(onramp_withdraw_native(&record, &owner(), &args, 100, 5), Ok((70, 35)));
    assert_eq!(onramp_withdraw_native(&record, &owner(), &args, 29, 5), Err(RampError::InsufficientFunds));
    let stranger = Caller { key: key(9), is_signer: true };
    assert_eq!(onramp_withdraw_native(&record, &stranger, &args, 100, 5), Err(RampError::Unauthorized));
    assert_eq!(onramp_withdraw_native(&record, &stranger, &args, 100, u64::MAX), Err(RampError::Unauthorized));
    assert_eq!(onramp_withdraw_native(&record, &owner(), &args, 100, u64::MAX - 29), Err(RampError::BalanceOverflow));
    assert_eq!(onramp_withdraw_native(&record, &owner(), &args, 100, u64::MAX - 30), Ok((70, u64::MAX)));
}

#[test]
fn operations_on_uninitialized_storage_fail() {
    let mut record = vec![0u8; RECORD_LEN];
    assert_eq!(set_active(&mut record, &owner(), &SetActiveInstruction { is_active: true }), Err(RampError::UninitializedAccount));
    assert_eq!(off_ramp_deposit(&mut record, &key(ASSET), &deposit_args(1), true), Err(RampError::UninitializedAccount));
    let mut junk = vec![7u8; RECORD_LEN];
    assert_eq!(set_active(&mut junk, &owner(), &SetActiveInstruction { is_active: true }), Err(RampError::CorruptRecordError));
}

#[test]
fn custody_depends_on_the_token_program() {
    let mut record = initialized(0);
    let mut host = Host::new();
    set_active(&mut record, &owner(), &SetActiveInstruction { is_active: true }).unwrap();
    list(&mut record, &mut host, key(ASSET), 10, 0).unwrap();
    let token_2022 = Pubkey::new_from_array(spl_token_2022_interface::ID.to_bytes());
    let request =
        plan_off_ramp_deposit(&record, &key(RAMP), &token_2022, &key(ASSET), &key(USER), &key(USER_TOKENS), &deposit_args(5))
            .unwrap();
    assert!(request.destination == custody_under(&key(ASSET), &token_2022));
    assert!(request.destination != custody(&key(ASSET)));
}

#[test]
fn deposit_notifications_carry_the_deposit() {
    let args = deposit_args(250);
    let n = deposit_notification(&key(ASSET), &key(USER), &args);
    assert!(n.asset == key(ASSET));
    assert_eq!(n.asset_name, "");
    assert_eq!(n.amount, 250);
    assert!(n.sender == key(USER));
    assert_eq!(n.region, Region::KEN);
    assert_eq!(n.medium, Medium::Primary);
    assert_eq!(n.data, vec![1, 2, 3]);
    let named = token_22_deposit_notification(&key(ASSET), "USDT COin".to_string(), &key(USER), &args);
    assert_eq!(named.asset_name, "USDT COin");
    assert_eq!(named.amount, 250);
    let native_args = OffRampDepositNativeInstruction { amount: 9, region: Region::RWA, medium: Medium::Tertiary, data: vec![4] };
    let native = native_deposit_notification(&key(USER), &native_args);
    assert!(native.asset == Pubkey::zeroed());
    assert_eq!(native.asset_name, "SOL");
    assert_eq!(native.amount, 9);
    assert!(native.sender == key(USER));
    assert_eq!(native.region, Region::RWA);
    assert_eq!(native.medium, Medium::Tertiary);
    assert_eq!(native.data, vec![4]);
}
