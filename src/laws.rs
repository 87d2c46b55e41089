//! Properties that hold of every ledger and every operation, proved over the
//! specifications that the operations' contracts use.
use crate::codec::{encode_ledger, lemma_record_holds, lemma_stored_ledger, stored_ledger};
use crate::errors::RampError;
use crate::processor::{
    active,
    add_assets_outcome,
    after_transfer,
    deposit_check,
    applied,
    authorization,
    deposit_outcome,
    native_deposit_outcome,
    native_withdraw_check,
    remove_assets_outcome,
    set_active_outcome,
    set_asset_fee_outcome,
    set_native_fee_outcome,
    set_owner_outcome,
    withdraw_check,
    Caller,
};
use crate::state::{
    fee_of,
    lemma_first_free,
    lemma_slot_of,
    saturating_sum,
    AssetInfo,
    LedgerView,
    MAX_FEE_PERCENTAGE,
};
use vstd::prelude::*;

verus! {

/// An operation with this outcome fails with `e` and leaves the storage `b`
/// as it was.
pub open spec fn refused(b: Seq<u8>, outcome: Result<LedgerView, RampError>, e: RampError) -> bool {
    &&& outcome == Err::<LedgerView, RampError>(e)
    &&& forall|after: Seq<u8>, r: Result<(), RampError>|
        #[trigger] applied(b, after, r, outcome) ==> after == b && r == Err::<(), RampError>(e)
}

/// The ledger after the listing requests `calls` (asset, fee percentage), in
/// order; a request that fails leaves the ledger as it was.
pub open spec fn apply_additions(v: LedgerView, calls: Seq<(Seq<u8>, u128)>) -> LedgerView
    decreases calls.len(),
{
    if calls.len() == 0 {
        v
    } else {
        let before = apply_additions(v, calls.drop_last());
        match before.add_asset_result(calls.last().0, calls.last().1) {
            Ok(w) => w,
            Err(_) => before,
        }
    }
}

/// A successful listing of a 32-byte asset keeps the ledger well-formed.
pub proof fn lemma_add_asset_wf(v: LedgerView, asset: Seq<u8>, fee_percentage: u128)
    requires
        v.wf(),
        asset.len() == 32,
        v.add_asset_result(asset, fee_percentage) is Ok,
    ensures
        v.add_asset_result(asset, fee_percentage)->Ok_0.wf(),
{
    let i = v.first_free();
    assert(v.is_first_free(i)) by {
        let k = choose|k: int| 0 <= k < v.slots.len() && v.slots[k] is None;
        let j = choose_first_free(v, k);
        lemma_first_free(v, j);
    }
    let w = v.add_asset_result(asset, fee_percentage)->Ok_0;
    assert forall|a: int, b: int|
        0 <= a < w.slots.len() && 0 <= b < w.slots.len() && a != b && w.slots[a] is Some
            && w.slots[b] is Some implies w.slots[a]->0.asset != w.slots[b]->0.asset by {
        if a == i {
            assert(!v.slot_holds(b, asset));
        } else if b == i {
            assert(!v.slot_holds(a, asset));
        }
    }
}

/// Below some empty slot `k` lies a lowest empty slot.
proof fn choose_first_free(v: LedgerView, k: int) -> (j: int)
    requires
        0 <= k < v.slots.len(),
        v.slots[k] is None,
    ensures
        v.is_first_free(j),
    decreases k,
{
    if exists|m: int| 0 <= m < k && v.slots[m] is None {
        let m = choose|m: int| 0 <= m < k && v.slots[m] is None;
        choose_first_free(v, m)
    } else {
        k
    }
}

/// No sequence of listings ever gives two slots the same asset: starting
/// from a well-formed ledger, the ledger stays well-formed, and so free of
/// duplicates, whatever listings are requested.
pub proof fn lemma_additions_keep_assets_unique(v: LedgerView, calls: Seq<(Seq<u8>, u128)>)
    requires
        v.wf(),
        forall|i: int| 0 <= i < calls.len() ==> (#[trigger] calls[i]).0.len() == 32,
    ensures
        apply_additions(v, calls).wf(),
        apply_additions(v, calls).unique(),
    decreases calls.len(),
{
    if calls.len() > 0 {
        lemma_additions_keep_assets_unique(v, calls.drop_last());
        let before = apply_additions(v, calls.drop_last());
        let call = calls.last();
        assert(calls[calls.len() - 1] == call);
        if before.add_asset_result(call.0, call.1) is Ok {
            lemma_add_asset_wf(before, call.0, call.1);
        }
    }
}

/// Once every slot is taken, listing a new asset at a valid fee by the owner
/// fails with `NoEmptySlot`, and so leaves the record as it was.
pub proof fn lemma_full_ledger_refuses_listing(
    b: Seq<u8>,
    caller: Caller,
    asset: Seq<u8>,
    fee_percentage: u128,
    transferred: bool,
)
    requires
        stored_ledger(b) is Ok,
        stored_ledger(b)->Ok_0.is_full(),
        authorization(stored_ledger(b)->Ok_0, caller) is Ok,
        !stored_ledger(b)->Ok_0.has_asset(asset),
        fee_percentage <= MAX_FEE_PERCENTAGE,
    ensures
        refused(
            b,
            add_assets_outcome(b, caller, asset, fee_percentage, transferred),
            RampError::NoEmptySlot,
        ),
{
}

/// Reading back the record of a well-formed ledger gives that ledger.
pub proof fn lemma_round_trip(v: LedgerView)
    requires
        v.wf(),
    ensures
        stored_ledger(encode_ledger(v)) == Ok::<LedgerView, RampError>(v),
{
    lemma_record_holds(v);
    lemma_stored_ledger(encode_ledger(v), v);
}

/// Whatever an operation stores reads back as exactly the ledger it
/// stored: after a successful operation, decoding the storage gives the
/// operation's new ledger.
pub proof fn lemma_applied_reads_back(
    before: Seq<u8>,
    after: Seq<u8>,
    r: Result<(), RampError>,
    outcome: Result<LedgerView, RampError>,
)
    requires
        applied(before, after, r, outcome),
        r is Ok,
    ensures
        stored_ledger(after) == outcome,
{
    lemma_stored_ledger(after, outcome->Ok_0);
}

/// Every administrative operation by a caller who is not the signing owner
/// fails with the guard's error, `Unauthorized` or `NotSigner`, and so
/// leaves the record as it was.
pub proof fn lemma_non_owner_refused(
    b: Seq<u8>,
    caller: Caller,
    new_owner: Seq<u8>,
    is_active: bool,
    asset: Seq<u8>,
    fee_percentage: u128,
    transferred: bool,
)
    requires
        stored_ledger(b) is Ok,
        authorization(stored_ledger(b)->Ok_0, caller) is Err,
    ensures
        ({
            let e = authorization(stored_ledger(b)->Ok_0, caller)->Err_0;
            &&& e == RampError::Unauthorized || e == RampError::NotSigner
            &&& caller.key@ != stored_ledger(b)->Ok_0.owner ==> e == RampError::Unauthorized
            &&& refused(b, set_owner_outcome(b, caller, new_owner), e)
            &&& refused(b, set_active_outcome(b, caller, is_active), e)
            &&& refused(b, set_native_fee_outcome(b, caller, fee_percentage), e)
            &&& refused(b, set_asset_fee_outcome(b, caller, asset, fee_percentage), e)
            &&& refused(b, add_assets_outcome(b, caller, asset, fee_percentage, transferred), e)
            &&& refused(b, remove_assets_outcome(b, caller, asset, transferred), e)
        }),
{
}

/// A fee percentage above the bound is refused with `InvalidFeePercentage`,
/// on listing and on a fee change alike: no entry is created or modified.
pub proof fn lemma_fee_bound(
    b: Seq<u8>,
    caller: Caller,
    asset: Seq<u8>,
    fee_percentage: u128,
    transferred: bool,
)
    requires
        fee_percentage > MAX_FEE_PERCENTAGE,
        stored_ledger(b) is Ok,
        authorization(stored_ledger(b)->Ok_0, caller) is Ok,
    ensures
        refused(
            b,
            add_assets_outcome(b, caller, asset, fee_percentage, transferred),
            RampError::InvalidFeePercentage,
        ),
        refused(
            b,
            set_asset_fee_outcome(b, caller, asset, fee_percentage),
            RampError::InvalidFeePercentage,
        ),
        stored_ledger(b)->Ok_0.add_asset_result(asset, fee_percentage) == Err::<
            LedgerView,
            RampError,
        >(RampError::InvalidFeePercentage),
        stored_ledger(b)->Ok_0.set_asset_fee_result(asset, fee_percentage) == Err::<
            LedgerView,
            RampError,
        >(RampError::InvalidFeePercentage),
{
}

/// `start` plus the fees of deposits of `amounts` at `fee_percentage`,
/// added one by one with saturation.
pub open spec fn saturating_fee_total(start: u128, fee_percentage: u128, amounts: Seq<u64>) -> u128
    decreases amounts.len(),
{
    if amounts.len() == 0 {
        start
    } else {
        saturating_sum(
            saturating_fee_total(start, fee_percentage, amounts.drop_last()),
            fee_of(amounts.last(), fee_percentage),
        )
    }
}

/// The ledger after deposits of `amounts` of `asset`, in order.
pub open spec fn apply_deposits(v: LedgerView, asset: Seq<u8>, amounts: Seq<u64>) -> LedgerView
    decreases amounts.len(),
{
    if amounts.len() == 0 {
        v
    } else {
        let before = apply_deposits(v, asset, amounts.drop_last());
        match before.deposit_result(asset, amounts.last()) {
            Ok(w) => w,
            Err(_) => before,
        }
    }
}

/// A deposit of a listed asset keeps the ledger well-formed and the asset
/// listed, keeps its fee, and adds the deposit's fee to its revenue.
pub proof fn lemma_deposit_step(v: LedgerView, asset: Seq<u8>, amount: u64)
    requires
        v.wf(),
        v.has_asset(asset),
    ensures
        v.deposit_result(asset, amount) is Ok,
        ({
            let w = v.deposit_result(asset, amount)->Ok_0;
            &&& w.wf()
            &&& w.has_asset(asset)
            &&& w.info_of(asset) == AssetInfo {
                asset_revenue: saturating_sum(
                    v.info_of(asset).asset_revenue,
                    fee_of(amount, v.info_of(asset).asset_fee_percentage),
                ),
                ..v.info_of(asset)
            }
        }),
{
    let i = v.slot_of(asset);
    assert(v.slot_holds(i, asset));
    let w = v.deposit_result(asset, amount)->Ok_0;
    assert(w.slot_holds(i, asset));
    assert(w.unique()) by {
        assert forall|a: int, b: int|
            0 <= a < w.slots.len() && 0 <= b < w.slots.len() && a != b && w.slots[a] is Some
                && w.slots[b] is Some implies w.slots[a]->0.asset != w.slots[b]->0.asset by {
            if a == i {
                assert(v.slots[a]->0.asset == asset);
            } else if b == i {
                assert(v.slots[b]->0.asset == asset);
            }
        }
    }
    lemma_slot_of(w, i, asset);
}

/// Over any sequence of deposits of a listed asset, its revenue never
/// decreases and equals its starting revenue plus the saturating sum of the
/// deposits' fees.
pub proof fn lemma_revenue_accrues(v: LedgerView, asset: Seq<u8>, amounts: Seq<u64>)
    requires
        v.wf(),
        v.has_asset(asset),
    ensures
        ({
            let w = apply_deposits(v, asset, amounts);
            &&& w.wf()
            &&& w.has_asset(asset)
            &&& w.info_of(asset).asset_fee_percentage == v.info_of(asset).asset_fee_percentage
            &&& w.info_of(asset).asset_revenue == saturating_fee_total(
                v.info_of(asset).asset_revenue,
                v.info_of(asset).asset_fee_percentage,
                amounts,
            )
            &&& w.info_of(asset).asset_revenue >= v.info_of(asset).asset_revenue
        }),
    decreases amounts.len(),
{
    if amounts.len() > 0 {
        lemma_revenue_accrues(v, asset, amounts.drop_last());
        let before = apply_deposits(v, asset, amounts.drop_last());
        lemma_deposit_step(before, asset, amounts.last());
    }
}

/// One successful deposit on the stored ledger: the asset stays listed with
/// its fee, and its revenue grows by the deposit's fee, saturating, so it
/// never decreases. Chained through `lemma_applied_reads_back`, these steps
/// give the revenue after any sequence of deposits.
pub proof fn lemma_deposit_record_step(b: Seq<u8>, asset: Seq<u8>, amount: u64)
    requires
        deposit_outcome(b, asset, amount, true) is Ok,
    ensures
        ({
            let v = stored_ledger(b)->Ok_0;
            let w = deposit_outcome(b, asset, amount, true)->Ok_0;
            &&& stored_ledger(b) is Ok
            &&& v.has_asset(asset)
            &&& w.wf()
            &&& w.has_asset(asset)
            &&& w.info_of(asset).asset_fee_percentage == v.info_of(asset).asset_fee_percentage
            &&& w.info_of(asset).asset_revenue == saturating_sum(
                v.info_of(asset).asset_revenue,
                fee_of(amount, v.info_of(asset).asset_fee_percentage),
            )
            &&& w.info_of(asset).asset_revenue >= v.info_of(asset).asset_revenue
        }),
{
    let v = stored_ledger(b)->Ok_0;
    assert(deposit_check(b, asset, amount) is Ok);
    lemma_deposit_step(v, asset, amount);
}

/// While the ledger is inactive, every deposit and withdrawal fails with
/// `ProgramNotActive`, whatever its other arguments.
pub proof fn lemma_inactive_refuses_flows(
    b: Seq<u8>,
    caller: Caller,
    asset: Seq<u8>,
    amount: u64,
    transferred: bool,
)
    requires
        stored_ledger(b) is Ok,
        !stored_ledger(b)->Ok_0.is_active,
    ensures
        active(b) == Err::<LedgerView, RampError>(RampError::ProgramNotActive),
        refused(b, deposit_outcome(b, asset, amount, transferred), RampError::ProgramNotActive),
        refused(b, native_deposit_outcome(b, amount, transferred), RampError::ProgramNotActive),
        after_transfer(withdraw_check(b, asset), transferred) == Err::<LedgerView, RampError>(
            RampError::ProgramNotActive,
        ),
        native_withdraw_check(b, caller) == Err::<LedgerView, RampError>(
            RampError::ProgramNotActive,
        ),
{
}

} // verus!
