//! The operations on the stored ledger. Each reads the record, checks the
//! caller and the arguments, and writes the changed record back; where an
//! operation needs a value transfer, one function says which transfer to make
//! and another takes its outcome and finishes the operation.
use crate::codec::{decode_state, holds_ledger, store_state, stored_ledger, RECORD_LEN};
use crate::errors::RampError;
use crate::instructions::{
    AddAssetsInstruction,
    OffRampDepositInstruction,
    OffRampDepositNativeInstruction,
    OnRampWithdrawInstruction,
    OnRampWithdrawNativeInstruction,
    SetActiveInstruction,
    SetAssetFeeInstruction,
    SetNativeFeePercentageInstruction,
    SetOwnerInstruction,
};
use crate::models::RampDeposit;
use crate::pubkey::Pubkey;
use crate::state::{LedgerView, RampState};
use vstd::prelude::*;

verus! {

/// Who invokes an operation: an identity, and whether the host verified that
/// it signed the request.
#[derive(Clone, Copy, Debug)]
pub struct Caller {
    pub key: Pubkey,
    pub is_signer: bool,
}

/// A value transfer that an operation needs: `amount` from `source` to
/// `destination`, authorized by `authority`.
#[derive(Clone, Copy, Debug)]
pub struct TransferRequest {
    pub source: Pubkey,
    pub destination: Pubkey,
    pub authority: Pubkey,
    pub amount: u64,
}

/// The custody account that holds `mint` for `wallet` under the token
/// program `token_program`.
pub uninterp spec fn associated_token_address(
    wallet: Seq<u8>,
    mint: Seq<u8>,
    token_program: Seq<u8>,
) -> Seq<u8>;

/// Relies on `spl_associated_token_account_interface::address::get_associated_token_address_with_program_id`:
/// the associated token account of `wallet` for `mint` under the token
/// program `token_program`, derived from the three identifiers alone. (It
/// panics only where no bump seed yields an address off the curve, which its
/// authors treat as unreachable.)
#[verifier::external_body]
fn custody_account(wallet: &Pubkey, mint: &Pubkey, token_program: &Pubkey) -> (r: Pubkey)
    ensures
        r@ == associated_token_address(wallet@, mint@, token_program@),
{
    let wallet = solana_program::pubkey::Pubkey::new_from_array(wallet.bytes);
    let mint = solana_program::pubkey::Pubkey::new_from_array(mint.bytes);
    let token_program = solana_program::pubkey::Pubkey::new_from_array(token_program.bytes);
    let address =
        spl_associated_token_account_interface::address::get_associated_token_address_with_program_id(
        &wallet,
        &mint,
        &token_program,
    );
    Pubkey::new_from_array(address.to_bytes())
}

/// The authorization guard: the caller must be the owner, and must have
/// signed.
pub open spec fn authorization(v: LedgerView, caller: Caller) -> Result<(), RampError> {
    if caller.key@ != v.owner {
        Err(RampError::Unauthorized)
    } else if !caller.is_signer {
        Err(RampError::NotSigner)
    } else {
        Ok(())
    }
}

pub fn authorize(state: &RampState, caller: &Caller) -> (r: Result<(), RampError>)
    ensures
        r == authorization(state@, *caller),
{
    if !caller.key.equals(&state.owner) {
        Err(RampError::Unauthorized)
    } else if !caller.is_signer {
        Err(RampError::NotSigner)
    } else {
        Ok(())
    }
}

/// The call returned `r` and the storage went from `before` to `after` as
/// `outcome` says: on success it holds the new ledger, on failure it is
/// unchanged.
pub open spec fn applied(
    before: Seq<u8>,
    after: Seq<u8>,
    r: Result<(), RampError>,
    outcome: Result<LedgerView, RampError>,
) -> bool {
    match outcome {
        Ok(v) => r is Ok && after.len() == before.len() && holds_ledger(after, v),
        Err(e) => r == Err::<(), RampError>(e) && after == before,
    }
}

/// The stored ledger, where the caller passes the authorization guard.
pub open spec fn guarded(b: Seq<u8>, caller: Caller) -> Result<LedgerView, RampError> {
    match stored_ledger(b) {
        Err(e) => Err(e),
        Ok(v) => match authorization(v, caller) {
            Err(e) => Err(e),
            Ok(_) => Ok(v),
        },
    }
}

/// The stored ledger, where it is active.
pub open spec fn active(b: Seq<u8>) -> Result<LedgerView, RampError> {
    match stored_ledger(b) {
        Err(e) => Err(e),
        Ok(v) => if v.is_active {
            Ok(v)
        } else {
            Err(RampError::ProgramNotActive)
        },
    }
}

/// `next`, where the transfer went through.
pub open spec fn after_transfer(next: Result<LedgerView, RampError>, transferred: bool) -> Result<
    LedgerView,
    RampError,
> {
    match next {
        Err(e) => Err(e),
        Ok(v) => if transferred {
            Ok(v)
        } else {
            Err(RampError::TransferFailed)
        },
    }
}

pub open spec fn set_owner_outcome(b: Seq<u8>, caller: Caller, new_owner: Seq<u8>) -> Result<
    LedgerView,
    RampError,
> {
    match guarded(b, caller) {
        Err(e) => Err(e),
        Ok(v) => Ok(LedgerView { owner: new_owner, ..v }),
    }
}

pub open spec fn set_active_outcome(b: Seq<u8>, caller: Caller, is_active: bool) -> Result<
    LedgerView,
    RampError,
> {
    match guarded(b, caller) {
        Err(e) => Err(e),
        Ok(v) => Ok(LedgerView { is_active, ..v }),
    }
}

pub open spec fn set_native_fee_outcome(b: Seq<u8>, caller: Caller, fee_percentage: u128) -> Result<
    LedgerView,
    RampError,
> {
    match guarded(b, caller) {
        Err(e) => Err(e),
        Ok(v) => Ok(LedgerView { native_fee_percentage: fee_percentage, ..v }),
    }
}

pub open spec fn set_asset_fee_outcome(
    b: Seq<u8>,
    caller: Caller,
    asset: Seq<u8>,
    fee_percentage: u128,
) -> Result<LedgerView, RampError> {
    match guarded(b, caller) {
        Err(e) => Err(e),
        Ok(v) => v.set_asset_fee_result(asset, fee_percentage),
    }
}

/// The ledger that listing `asset` would give, before its funding transfer.
pub open spec fn add_assets_check(
    b: Seq<u8>,
    caller: Caller,
    asset: Seq<u8>,
    fee_percentage: u128,
) -> Result<LedgerView, RampError> {
    match guarded(b, caller) {
        Err(e) => Err(e),
        Ok(v) => v.add_asset_result(asset, fee_percentage),
    }
}

/// The ledger that delisting `asset` would give, before its custody sweep.
pub open spec fn remove_assets_check(b: Seq<u8>, caller: Caller, asset: Seq<u8>) -> Result<
    LedgerView,
    RampError,
> {
    match guarded(b, caller) {
        Err(e) => Err(e),
        Ok(v) => v.remove_asset_result(asset),
    }
}

/// The ledger that a deposit of `amount` of `asset` would give, before its
/// transfer.
pub open spec fn deposit_check(b: Seq<u8>, asset: Seq<u8>, amount: u64) -> Result<
    LedgerView,
    RampError,
> {
    match active(b) {
        Err(e) => Err(e),
        Ok(v) => v.deposit_result(asset, amount),
    }
}

/// The ledger that a native-currency deposit of `amount` would give, before
/// its transfer.
pub open spec fn native_deposit_check(b: Seq<u8>, amount: u64) -> Result<LedgerView, RampError> {
    match active(b) {
        Err(e) => Err(e),
        Ok(v) => Ok(v.native_deposit_result(amount)),
    }
}

/// Whether a withdrawal of `asset` may go ahead: the ledger is active and
/// lists the asset.
pub open spec fn withdraw_check(b: Seq<u8>, asset: Seq<u8>) -> Result<LedgerView, RampError> {
    match active(b) {
        Err(e) => Err(e),
        Ok(v) => if v.has_asset(asset) {
            Ok(v)
        } else {
            Err(RampError::AssetNotFound)
        },
    }
}

/// Whether a native-currency withdrawal may go ahead: the ledger is active
/// and the caller passes the authorization guard.
pub open spec fn native_withdraw_check(b: Seq<u8>, caller: Caller) -> Result<
    LedgerView,
    RampError,
> {
    match active(b) {
        Err(e) => Err(e),
        Ok(v) => match authorization(v, caller) {
            Err(e) => Err(e),
            Ok(_) => Ok(v),
        },
    }
}

/// Reads the ledger and applies the authorization guard.
fn load_guarded(b: &[u8], caller: &Caller) -> (r: Result<RampState, RampError>)
    ensures
        match r {
            Ok(s) => s.wf() && guarded(b@, *caller) == Ok::<LedgerView, RampError>(s@)
                && b@.len() >= RECORD_LEN,
            Err(e) => guarded(b@, *caller) == Err::<LedgerView, RampError>(e),
        },
{
    let state = match decode_state(b) {
        Ok(s) => s,
        Err(e) => return Err(e),
    };
    match authorize(&state, caller) {
        Ok(_) => Ok(state),
        Err(e) => Err(e),
    }
}

/// Reads the ledger and checks that it is active.
fn load_active(b: &[u8]) -> (r: Result<RampState, RampError>)
    ensures
        match r {
            Ok(s) => s.wf() && active(b@) == Ok::<LedgerView, RampError>(s@) && b@.len()
                >= RECORD_LEN,
            Err(e) => active(b@) == Err::<LedgerView, RampError>(e),
        },
{
    let state = match decode_state(b) {
        Ok(s) => s,
        Err(e) => return Err(e),
    };
    if !state.is_active {
        return Err(RampError::ProgramNotActive);
    }
    Ok(state)
}

/// Writes `state` back into storage that held a ledger.
fn commit(record: &mut Vec<u8>, state: &RampState) -> (r: Result<(), RampError>)
    requires
        state.wf(),
        old(record)@.len() >= RECORD_LEN,
    ensures
        applied(old(record)@, final(record)@, r, Ok(state@)),
{
    store_state(state, record)
}

/// Hands the ledger to `args.new_owner`.
pub fn set_owner(record: &mut Vec<u8>, caller: &Caller, args: &SetOwnerInstruction) -> (r: Result<
    (),
    RampError,
>)
    ensures
        applied(
            old(record)@,
            final(record)@,
            r,
            set_owner_outcome(old(record)@, *caller, args.new_owner@),
        ),
{
    let mut state = match load_guarded(record.as_slice(), caller) {
        Ok(s) => s,
        Err(e) => return Err(e),
    };
    state.set_new_owner(args.new_owner);
    commit(record, &state)
}

/// Turns deposits and withdrawals on or off.
pub fn set_active(record: &mut Vec<u8>, caller: &Caller, args: &SetActiveInstruction) -> (r: Result<
    (),
    RampError,
>)
    ensures
        applied(
            old(record)@,
            final(record)@,
            r,
            set_active_outcome(old(record)@, *caller, args.is_active),
        ),
{
    let mut state = match load_guarded(record.as_slice(), caller) {
        Ok(s) => s,
        Err(e) => return Err(e),
    };
    state.set_active(args.is_active);
    commit(record, &state)
}

/// Changes the fee on native-currency deposits.
pub fn set_native_fee_percentage(
    record: &mut Vec<u8>,
    caller: &Caller,
    args: &SetNativeFeePercentageInstruction,
) -> (r: Result<(), RampError>)
    ensures
        applied(
            old(record)@,
            final(record)@,
            r,
            set_native_fee_outcome(old(record)@, *caller, args.fee_percentage),
        ),
{
    let mut state = match load_guarded(record.as_slice(), caller) {
        Ok(s) => s,
        Err(e) => return Err(e),
    };
    state.set_native_fee_percentage(args.fee_percentage);
    commit(record, &state)
}

/// Changes the fee of a listed asset.
pub fn set_asset_fee(record: &mut Vec<u8>, caller: &Caller, args: &SetAssetFeeInstruction) -> (r:
    Result<(), RampError>)
    ensures
        applied(
            old(record)@,
            final(record)@,
            r,
            set_asset_fee_outcome(old(record)@, *caller, args.asset_mint@, args.fee_percentage),
        ),
{
    let mut state = match load_guarded(record.as_slice(), caller) {
        Ok(s) => s,
        Err(e) => return Err(e),
    };
    match state.set_asset_fee(&args.asset_mint, args.fee_percentage) {
        Ok(_) => commit(record, &state),
        Err(e) => Err(e),
    }
}

pub open spec fn initialize_outcome(
    b: Seq<u8>,
    payer: Seq<u8>,
    vault_address: Seq<u8>,
    native_fee_percentage: u128,
) -> Result<LedgerView, RampError> {
    if !crate::codec::all_zero(b) {
        Err(RampError::AccountAlreadyInitialized)
    } else if b.len() < RECORD_LEN {
        Err(RampError::RentOrSpaceError)
    } else {
        Ok(LedgerView::initial(payer, vault_address, native_fee_percentage))
    }
}

/// Creates the ledger in fresh, zeroed storage: owned by `payer`, inactive,
/// with no asset listed.
pub fn initialize_program(
    record: &mut Vec<u8>,
    payer: &Pubkey,
    args: &crate::instructions::InitializeProgramInstruction,
) -> (r: Result<(), RampError>)
    ensures
        applied(
            old(record)@,
            final(record)@,
            r,
            initialize_outcome(
                old(record)@,
                payer@,
                args.vault_address@,
                args.native_fee_percentage,
            ),
        ),
{
    let mut i: usize = 0;
    while i < record.len()
        invariant
            i <= record@.len(),
            forall|j: int| 0 <= j < i ==> record@[j] == 0,
        decreases record@.len() - i,
    {
        if record[i] != 0 {
            return Err(RampError::AccountAlreadyInitialized);
        }
        i = i + 1;
    }
    if record.len() < RECORD_LEN {
        return Err(RampError::RentOrSpaceError);
    }
    let mut state = RampState::empty();
    state.set_new_owner(*payer);
    state.vault_address = args.vault_address;
    state.native_fee_percentage = args.native_fee_percentage;
    assert(state@.slots =~= LedgerView::initial(
        payer@,
        args.vault_address@,
        args.native_fee_percentage,
    ).slots);
    commit(record, &state)
}

pub open spec fn add_assets_outcome(
    b: Seq<u8>,
    caller: Caller,
    asset: Seq<u8>,
    fee_percentage: u128,
    transferred: bool,
) -> Result<LedgerView, RampError> {
    after_transfer(add_assets_check(b, caller, asset, fee_percentage), transferred)
}

/// The funding transfer of a new listing: `args.initial_amount` from the
/// owner's `source` account into the ledger's custody account for `asset`
/// under `token_program`. Fails, before any transfer, where the listing
/// would fail.
pub fn plan_add_assets(
    record: &[u8],
    caller: &Caller,
    ramp: &Pubkey,
    token_program: &Pubkey,
    asset: &Pubkey,
    source: &Pubkey,
    args: &AddAssetsInstruction,
) -> (r: Result<TransferRequest, RampError>)
    ensures
        match add_assets_check(record@, *caller, asset@, args.fee_percentage) {
            Err(e) => r == Err::<TransferRequest, RampError>(e),
            Ok(_) => r matches Ok(t) && t.source == *source && t.destination@
                == associated_token_address(ramp@, asset@, token_program@) && t.authority == caller.key
                && t.amount == args.initial_amount,
        },
{
    let mut state = match load_guarded(record, caller) {
        Ok(s) => s,
        Err(e) => return Err(e),
    };
    match state.add_asset(*asset, args.fee_percentage) {
        Ok(_) => {},
        Err(e) => return Err(e),
    }
    Ok(
        TransferRequest {
            source: *source,
            destination: custody_account(ramp, asset, token_program),
            authority: caller.key,
            amount: args.initial_amount,
        },
    )
}

/// Lists `asset` at `args.fee_percentage` once its funding transfer has been
/// made; `transferred` says whether it went through.
pub fn add_assets(
    record: &mut Vec<u8>,
    caller: &Caller,
    asset: &Pubkey,
    args: &AddAssetsInstruction,
    transferred: bool,
) -> (r: Result<(), RampError>)
    ensures
        applied(
            old(record)@,
            final(record)@,
            r,
            add_assets_outcome(old(record)@, *caller, asset@, args.fee_percentage, transferred),
        ),
{
    let mut state = match load_guarded(record.as_slice(), caller) {
        Ok(s) => s,
        Err(e) => return Err(e),
    };
    match state.add_asset(*asset, args.fee_percentage) {
        Ok(_) => {},
        Err(e) => return Err(e),
    }
    if !transferred {
        return Err(RampError::TransferFailed);
    }
    commit(record, &state)
}

pub open spec fn remove_assets_outcome(
    b: Seq<u8>,
    caller: Caller,
    asset: Seq<u8>,
    swept: bool,
) -> Result<LedgerView, RampError> {
    after_transfer(remove_assets_check(b, caller, asset), swept)
}

/// The sweep of a delisted asset's custody: the whole `custody_balance` from
/// the ledger's custody account (under `token_program`) to `recipient`, or
/// no transfer where the balance is zero. Fails, before any transfer, where
/// the delisting would fail.
pub fn plan_remove_assets(
    record: &[u8],
    caller: &Caller,
    ramp: &Pubkey,
    token_program: &Pubkey,
    asset: &Pubkey,
    recipient: &Pubkey,
    custody_balance: u64,
) -> (r: Result<Option<TransferRequest>, RampError>)
    ensures
        match remove_assets_check(record@, *caller, asset@) {
            Err(e) => r == Err::<Option<TransferRequest>, RampError>(e),
            Ok(_) => if custody_balance == 0 {
                r == Ok::<Option<TransferRequest>, RampError>(None)
            } else {
                r matches Ok(Some(t)) && t.source@ == associated_token_address(ramp@, asset@, token_program@)
                    && t.destination == *recipient && t.authority == *ramp && t.amount
                    == custody_balance
            },
        },
{
    let mut state = match load_guarded(record, caller) {
        Ok(s) => s,
        Err(e) => return Err(e),
    };
    match state.remove_asset(asset) {
        Ok(_) => {},
        Err(e) => return Err(e),
    }
    if custody_balance == 0 {
        return Ok(None);
    }
    Ok(
        Some(
            TransferRequest {
                source: custody_account(ramp, asset, token_program),
                destination: *recipient,
                authority: *ramp,
                amount: custody_balance,
            },
        ),
    )
}

/// Delists `asset` once its custody has been swept; `swept` says whether the
/// sweep went through (or was not needed).
pub fn remove_assets(record: &mut Vec<u8>, caller: &Caller, asset: &Pubkey, swept: bool) -> (r:
    Result<(), RampError>)
    ensures
        applied(
            old(record)@,
            final(record)@,
            r,
            remove_assets_outcome(old(record)@, *caller, asset@, swept),
        ),
{
    let mut state = match load_guarded(record.as_slice(), caller) {
        Ok(s) => s,
        Err(e) => return Err(e),
    };
    match state.remove_asset(asset) {
        Ok(_) => {},
        Err(e) => return Err(e),
    }
    if !swept {
        return Err(RampError::TransferFailed);
    }
    commit(record, &state)
}

pub open spec fn deposit_outcome(b: Seq<u8>, asset: Seq<u8>, amount: u64, transferred: bool) -> Result<
    LedgerView,
    RampError,
> {
    after_transfer(deposit_check(b, asset, amount), transferred)
}

/// The transfer of an off-ramp deposit: `args.amount` from the depositor's
/// `source` account into the ledger's custody account for `asset` under
/// `token_program`. Fails, before any transfer, where the deposit would fail.
pub fn plan_off_ramp_deposit(
    record: &[u8],
    ramp: &Pubkey,
    token_program: &Pubkey,
    asset: &Pubkey,
    depositor: &Pubkey,
    source: &Pubkey,
    args: &OffRampDepositInstruction,
) -> (r: Result<TransferRequest, RampError>)
    ensures
        match deposit_check(record@, asset@, args.amount) {
            Err(e) => r == Err::<TransferRequest, RampError>(e),
            Ok(_) => r matches Ok(t) && t.source == *source && t.destination@
                == associated_token_address(ramp@, asset@, token_program@) && t.authority == *depositor
                && t.amount == args.amount,
        },
{
    let mut state = match load_active(record) {
        Ok(s) => s,
        Err(e) => return Err(e),
    };
    match state.record_deposit(asset, args.amount) {
        Ok(_) => {},
        Err(e) => return Err(e),
    }
    Ok(
        TransferRequest {
            source: *source,
            destination: custody_account(ramp, asset, token_program),
            authority: *depositor,
            amount: args.amount,
        },
    )
}

/// Accrues the fee of an off-ramp deposit of `args.amount` of `asset` once
/// its transfer has been made; `transferred` says whether it went through.
pub fn off_ramp_deposit(
    record: &mut Vec<u8>,
    asset: &Pubkey,
    args: &OffRampDepositInstruction,
    transferred: bool,
) -> (r: Result<(), RampError>)
    ensures
        applied(
            old(record)@,
            final(record)@,
            r,
            deposit_outcome(old(record)@, asset@, args.amount, transferred),
        ),
{
    let mut state = match load_active(record.as_slice()) {
        Ok(s) => s,
        Err(e) => return Err(e),
    };
    match state.record_deposit(asset, args.amount) {
        Ok(_) => {},
        Err(e) => return Err(e),
    }
    if !transferred {
        return Err(RampError::TransferFailed);
    }
    commit(record, &state)
}

/// An off-ramp deposit of a token whose display name comes from its mint's
/// metadata; the ledger treats it as any other deposit.
pub fn off_ramp_deposit_token_22(
    record: &mut Vec<u8>,
    asset: &Pubkey,
    args: &OffRampDepositInstruction,
    transferred: bool,
) -> (r: Result<(), RampError>)
    ensures
        applied(
            old(record)@,
            final(record)@,
            r,
            deposit_outcome(old(record)@, asset@, args.amount, transferred),
        ),
{
    off_ramp_deposit(record, asset, args, transferred)
}

pub open spec fn native_deposit_outcome(b: Seq<u8>, amount: u64, transferred: bool) -> Result<
    LedgerView,
    RampError,
> {
    after_transfer(native_deposit_check(b, amount), transferred)
}

/// The transfer of a native-currency deposit: `args.amount` from `depositor`
/// to the ledger's own account `ramp`. Fails, before any transfer, where the
/// deposit would fail.
pub fn plan_off_ramp_deposit_native(
    record: &[u8],
    ramp: &Pubkey,
    depositor: &Pubkey,
    args: &OffRampDepositNativeInstruction,
) -> (r: Result<TransferRequest, RampError>)
    ensures
        match native_deposit_check(record@, args.amount) {
            Err(e) => r == Err::<TransferRequest, RampError>(e),
            Ok(_) => r matches Ok(t) && t.source == *depositor && t.destination == *ramp
                && t.authority == *depositor && t.amount == args.amount,
        },
{
    match load_active(record) {
        Ok(_) => {},
        Err(e) => return Err(e),
    }
    Ok(TransferRequest { source: *depositor, destination: *ramp, authority: *depositor, amount: args.amount })
}

/// Accrues the fee of a native-currency deposit once its transfer has been
/// made; `transferred` says whether it went through.
pub fn off_ramp_deposit_native(
    record: &mut Vec<u8>,
    args: &OffRampDepositNativeInstruction,
    transferred: bool,
) -> (r: Result<(), RampError>)
    ensures
        applied(
            old(record)@,
            final(record)@,
            r,
            native_deposit_outcome(old(record)@, args.amount, transferred),
        ),
{
    let mut state = match load_active(record.as_slice()) {
        Ok(s) => s,
        Err(e) => return Err(e),
    };
    if !transferred {
        return Err(RampError::TransferFailed);
    }
    state.record_native_deposit(args.amount);
    commit(record, &state)
}

/// The transfer of an on-ramp withdrawal: `args.amount` of `asset` from the
/// ledger's custody account (under `token_program`) to `recipient`. Fails,
/// before any transfer, where the ledger is inactive or does not list the
/// asset.
pub fn plan_onramp_withdraw(
    record: &[u8],
    ramp: &Pubkey,
    token_program: &Pubkey,
    asset: &Pubkey,
    recipient: &Pubkey,
    args: &OnRampWithdrawInstruction,
) -> (r: Result<TransferRequest, RampError>)
    ensures
        match withdraw_check(record@, asset@) {
            Err(e) => r == Err::<TransferRequest, RampError>(e),
            Ok(_) => r matches Ok(t) && t.source@ == associated_token_address(ramp@, asset@, token_program@)
                && t.destination == *recipient && t.authority == *ramp && t.amount == args.amount,
        },
{
    match onramp_withdraw(record, asset, true) {
        Ok(_) => {},
        Err(e) => return Err(e),
    }
    Ok(
        TransferRequest {
            source: custody_account(ramp, asset, token_program),
            destination: *recipient,
            authority: *ramp,
            amount: args.amount,
        },
    )
}

/// Settles an on-ramp withdrawal of `asset`, which changes no record:
/// `transferred` says whether its transfer went through.
pub fn onramp_withdraw(record: &[u8], asset: &Pubkey, transferred: bool) -> (r: Result<
    (),
    RampError,
>)
    ensures
        match after_transfer(withdraw_check(record@, asset@), transferred) {
            Err(e) => r == Err::<(), RampError>(e),
            Ok(_) => r is Ok,
        },
{
    let state = match load_active(record) {
        Ok(s) => s,
        Err(e) => return Err(e),
    };
    if !state.is_allowed_asset(asset) {
        return Err(RampError::AssetNotFound);
    }
    if !transferred {
        return Err(RampError::TransferFailed);
    }
    Ok(())
}

/// A native-currency withdrawal of `args.amount` from the ledger's balance
/// to a recipient's: the two balances afterwards. Only the owner may
/// withdraw, and only while the ledger is active; the withdrawal fails where
/// the ledger's balance cannot cover it or the recipient's would overflow.
pub fn onramp_withdraw_native(
    record: &[u8],
    caller: &Caller,
    args: &OnRampWithdrawNativeInstruction,
    ledger_balance: u64,
    recipient_balance: u64,
) -> (r: Result<(u64, u64), RampError>)
    ensures
        match native_withdraw_check(record@, *caller) {
            Err(e) => r == Err::<(u64, u64), RampError>(e),
            Ok(_) => if args.amount > ledger_balance {
                r == Err::<(u64, u64), RampError>(RampError::InsufficientFunds)
            } else if recipient_balance + args.amount > u64::MAX {
                r == Err::<(u64, u64), RampError>(RampError::BalanceOverflow)
            } else {
                r == Ok::<(u64, u64), RampError>(
                    ((ledger_balance - args.amount) as u64, (recipient_balance + args.amount) as u64),
                )
            },
        },
{
    let state = match load_active(record) {
        Ok(s) => s,
        Err(e) => return Err(e),
    };
    match authorize(&state, caller) {
        Ok(_) => {},
        Err(e) => return Err(e),
    }
    if args.amount > ledger_balance {
        return Err(RampError::InsufficientFunds);
    }
    match recipient_balance.checked_add(args.amount) {
        Some(credited) => Ok((ledger_balance - args.amount, credited)),
        None => Err(RampError::BalanceOverflow),
    }
}

/// The notification of an off-ramp deposit of `asset` by `depositor`; the
/// asset's display name is left empty.
pub fn deposit_notification(asset: &Pubkey, depositor: &Pubkey, args: &OffRampDepositInstruction) -> (r:
    RampDeposit)
    ensures
        r.asset == *asset,
        r.asset_name@ == Seq::<char>::empty(),
        r.amount == args.amount,
        r.sender == *depositor,
        r.region == args.region,
        r.medium == args.medium,
        r.data@ == args.data@,
{
    token_22_deposit_notification(asset, String::new(), depositor, args)
}

/// The notification of an off-ramp deposit of `asset` by `depositor`, under
/// the asset's display name `asset_name`.
pub fn token_22_deposit_notification(
    asset: &Pubkey,
    asset_name: String,
    depositor: &Pubkey,
    args: &OffRampDepositInstruction,
) -> (r: RampDeposit)
    ensures
        r.asset == *asset,
        r.asset_name@ == asset_name@,
        r.amount == args.amount,
        r.sender == *depositor,
        r.region == args.region,
        r.medium == args.medium,
        r.data@ == args.data@,
{
    RampDeposit::new(
        *asset,
        asset_name,
        args.amount,
        *depositor,
        args.medium,
        args.region,
        vstd::slice::slice_to_vec(args.data.as_slice()),
    )
}

/// The notification of a native-currency deposit by `depositor`: the asset
/// is the all-zero identifier, named "SOL".
pub fn native_deposit_notification(depositor: &Pubkey, args: &OffRampDepositNativeInstruction) -> (r:
    RampDeposit)
    ensures
        r.asset@ == Seq::new(32, |i: int| 0u8),
        r.asset_name@ == "SOL"@,
        r.amount == args.amount,
        r.sender == *depositor,
        r.region == args.region,
        r.medium == args.medium,
        r.data@ == args.data@,
{
    RampDeposit::new(
        Pubkey::zeroed(),
        "SOL".to_owned(),
        args.amount,
        *depositor,
        args.medium,
        args.region,
        vstd::slice::slice_to_vec(args.data.as_slice()),
    )
}

} // verus!
