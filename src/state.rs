//! The ledger itself: the asset table, its invariant, and the changes that
//! the operations make to it.
use crate::errors::RampError;
use crate::pubkey::Pubkey;
use vstd::prelude::*;

verus! {

/// Number of asset slots in a ledger.
pub const ASSET_CAPACITY: usize = 10;

/// Largest accepted fee percentage: fees are whole percent, 0 to 100.
pub const MAX_FEE_PERCENTAGE: u128 = 100;

/// `a + b`, or `u128::MAX` where the sum does not fit.
pub open spec fn saturating_sum(a: u128, b: u128) -> u128 {
    if a + b > u128::MAX {
        u128::MAX
    } else {
        (a + b) as u128
    }
}

/// The fee taken on a deposit: `amount * fee_percentage / 100`, rounded
/// down, or `u128::MAX` where that does not fit.
pub open spec fn fee_of(amount: u64, fee_percentage: u128) -> u128 {
    let exact = amount * fee_percentage / 100;
    if exact > u128::MAX {
        u128::MAX
    } else {
        exact as u128
    }
}

/// Computes the fee taken on a deposit of `amount` at `fee_percentage` percent.
pub fn deposit_fee(amount: u64, fee_percentage: u128) -> (r: u128)
    ensures
        r == fee_of(amount, fee_percentage),
{
    let whole = fee_percentage / 100;
    let part = fee_percentage % 100;
    assert(amount * part <= u64::MAX * 99) by (nonlinear_arith)
        requires
            amount <= u64::MAX,
            part < 100,
    ;
    let low = (amount as u128) * part / 100;
    assert(amount * fee_percentage / 100 == amount * whole + low) by (nonlinear_arith)
        requires
            whole == fee_percentage / 100,
            part == fee_percentage % 100,
            low == amount * part / 100,
            amount >= 0,
    ;
    match (amount as u128).checked_mul(whole) {
        Some(high) => high.saturating_add(low),
        None => u128::MAX,
    }
}

/// Fee configuration and accrued revenue of one asset.
#[derive(Clone, Copy, Debug, PartialEq, Eq, Structural)]
pub struct AssetInfo {
    pub asset_fee_percentage: u128,
    pub asset_revenue: u128,
}

impl AssetInfo {
    pub fn new(fee_percentage: u128) -> (r: AssetInfo)
        ensures
            r.asset_fee_percentage == fee_percentage,
            r.asset_revenue == 0,
    {
        AssetInfo { asset_fee_percentage: fee_percentage, asset_revenue: 0 }
    }

    /// Adds `amount` to the revenue, saturating at `u128::MAX`.
    pub fn add_revenue(&mut self, amount: u128)
        ensures
            final(self).asset_revenue == saturating_sum(old(self).asset_revenue, amount),
            final(self).asset_fee_percentage == old(self).asset_fee_percentage,
    {
        self.asset_revenue = self.asset_revenue.saturating_add(amount);
    }

    pub fn get_fee_percentage(&self) -> (r: u128)
        ensures
            r == self.asset_fee_percentage,
    {
        self.asset_fee_percentage
    }

    pub fn get_revenue(&self) -> (r: u128)
        ensures
            r == self.asset_revenue,
    {
        self.asset_revenue
    }
}

/// One occupied slot of the asset table.
#[derive(Clone, Copy, Debug)]
pub struct AssetEntry {
    pub asset: Pubkey,
    pub info: AssetInfo,
}

/// The ledger: its owner, activation flag, payout vault, native-currency fee
/// and revenue, and a fixed number of asset slots, each empty or holding one
/// asset.
#[derive(Clone, Debug)]
pub struct RampState {
    pub owner: Pubkey,
    pub is_active: bool,
    pub vault_address: Pubkey,
    pub native_fee_percentage: u128,
    pub native_revenue: u128,
    pub asset_entries: Vec<Option<AssetEntry>>,
}

/// What one occupied slot says: which asset, and its fee and revenue.
pub struct EntryView {
    pub asset: Seq<u8>,
    pub info: AssetInfo,
}

/// The mathematical model of a ledger.
pub struct LedgerView {
    pub owner: Seq<u8>,
    pub is_active: bool,
    pub vault_address: Seq<u8>,
    pub native_fee_percentage: u128,
    pub native_revenue: u128,
    pub slots: Seq<Option<EntryView>>,
}

pub open spec fn entry_view(e: AssetEntry) -> EntryView {
    EntryView { asset: e.asset@, info: e.info }
}

pub open spec fn slot_view(slot: Option<AssetEntry>) -> Option<EntryView> {
    match slot {
        Some(e) => Some(entry_view(e)),
        None => None,
    }
}

impl View for AssetEntry {
    type V = EntryView;

    open spec fn view(&self) -> EntryView {
        entry_view(*self)
    }
}

impl View for RampState {
    type V = LedgerView;

    open spec fn view(&self) -> LedgerView {
        LedgerView {
            owner: self.owner@,
            is_active: self.is_active,
            vault_address: self.vault_address@,
            native_fee_percentage: self.native_fee_percentage,
            native_revenue: self.native_revenue,
            slots: self.asset_entries@.map_values(|s: Option<AssetEntry>| slot_view(s)),
        }
    }
}

impl LedgerView {
    /// Slot `i` holds `asset`.
    pub open spec fn slot_holds(self, i: int, asset: Seq<u8>) -> bool {
        &&& 0 <= i < self.slots.len()
        &&& self.slots[i] is Some
        &&& self.slots[i]->0.asset == asset
    }

    /// No asset occupies two slots.
    pub open spec fn unique(self) -> bool {
        forall|i: int, j: int|
            0 <= i < self.slots.len() && 0 <= j < self.slots.len() && i != j
                && self.slots[i] is Some && self.slots[j] is Some
                ==> self.slots[i]->0.asset != self.slots[j]->0.asset
    }

    /// Every asset's fee lies within the bound.
    pub open spec fn fees_bounded(self) -> bool {
        forall|i: int|
            0 <= i < self.slots.len() && self.slots[i] is Some
                ==> self.slots[i]->0.info.asset_fee_percentage <= MAX_FEE_PERCENTAGE
    }

    /// Every identifier in the ledger is 32 bytes long.
    pub open spec fn keys_sized(self) -> bool {
        &&& self.owner.len() == 32
        &&& self.vault_address.len() == 32
        &&& forall|i: int|
            0 <= i < self.slots.len() && self.slots[i] is Some ==> self.slots[i]->0.asset.len()
                == 32
    }

    /// The ledger's invariant: the slot count is the capacity, identifiers
    /// are 32 bytes long, no asset is listed twice, and every asset's fee lies within
    /// the bound.
    pub open spec fn wf(self) -> bool {
        &&& self.slots.len() == ASSET_CAPACITY
        &&& self.keys_sized()
        &&& self.unique()
        &&& self.fees_bounded()
    }

    pub open spec fn has_asset(self, asset: Seq<u8>) -> bool {
        exists|i: int| self.slot_holds(i, asset)
    }

    /// The slot that holds `asset`, where one does.
    pub open spec fn slot_of(self, asset: Seq<u8>) -> int {
        choose|i: int| self.slot_holds(i, asset)
    }

    /// Fee configuration and revenue of a listed asset.
    pub open spec fn info_of(self, asset: Seq<u8>) -> AssetInfo {
        self.slots[self.slot_of(asset)]->0.info
    }

    /// Every slot is taken.
    pub open spec fn is_full(self) -> bool {
        forall|i: int| 0 <= i < self.slots.len() ==> self.slots[i] is Some
    }

    /// Slot `i` is the lowest empty slot.
    pub open spec fn is_first_free(self, i: int) -> bool {
        &&& 0 <= i < self.slots.len()
        &&& self.slots[i] is None
        &&& forall|j: int| 0 <= j < i ==> self.slots[j] is Some
    }

    /// The same ledger with slot `i` replaced by `slot`.
    pub open spec fn with_slot(self, i: int, slot: Option<EntryView>) -> LedgerView {
        LedgerView { slots: self.slots.update(i, slot), ..self }
    }

    /// The same ledger with the listed `asset`'s fee and revenue replaced.
    pub open spec fn with_info(self, asset: Seq<u8>, info: AssetInfo) -> LedgerView {
        self.with_slot(self.slot_of(asset), Some(EntryView { asset, info }))
    }

    /// The lowest empty slot, where there is one.
    pub open spec fn first_free(self) -> int {
        choose|i: int| self.is_first_free(i)
    }

    /// Outcome of listing `asset` at `fee_percentage`: the fee is checked
    /// first, then that the asset is new, then that a slot is free; the asset
    /// goes into the lowest empty slot with no revenue.
    pub open spec fn add_asset_result(self, asset: Seq<u8>, fee_percentage: u128) -> Result<
        LedgerView,
        RampError,
    > {
        if fee_percentage > MAX_FEE_PERCENTAGE {
            Err(RampError::InvalidFeePercentage)
        } else if self.has_asset(asset) {
            Err(RampError::AssetAlreadyExists)
        } else if self.is_full() {
            Err(RampError::NoEmptySlot)
        } else {
            Ok(
                self.with_slot(
                    self.first_free(),
                    Some(EntryView { asset, info: AssetInfo { asset_fee_percentage: fee_percentage, asset_revenue: 0 } }),
                ),
            )
        }
    }

    /// Outcome of delisting `asset`: its slot becomes empty.
    pub open spec fn remove_asset_result(self, asset: Seq<u8>) -> Result<LedgerView, RampError> {
        if !self.has_asset(asset) {
            Err(RampError::AssetNotFound)
        } else {
            Ok(self.with_slot(self.slot_of(asset), None))
        }
    }

    /// Outcome of setting a listed asset's fee; its revenue is kept.
    pub open spec fn set_asset_fee_result(self, asset: Seq<u8>, fee_percentage: u128) -> Result<
        LedgerView,
        RampError,
    > {
        if fee_percentage > MAX_FEE_PERCENTAGE {
            Err(RampError::InvalidFeePercentage)
        } else if !self.has_asset(asset) {
            Err(RampError::AssetNotFound)
        } else {
            Ok(
                self.with_info(
                    asset,
                    AssetInfo { asset_fee_percentage: fee_percentage, ..self.info_of(asset) },
                ),
            )
        }
    }

    /// Outcome of accruing the fee of a deposit of `amount` of `asset`: the
    /// asset's revenue grows by the fee, saturating.
    pub open spec fn deposit_result(self, asset: Seq<u8>, amount: u64) -> Result<
        LedgerView,
        RampError,
    > {
        if !self.has_asset(asset) {
            Err(RampError::AssetNotFound)
        } else {
            let info = self.info_of(asset);
            Ok(
                self.with_info(
                    asset,
                    AssetInfo {
                        asset_revenue: saturating_sum(
                            info.asset_revenue,
                            fee_of(amount, info.asset_fee_percentage),
                        ),
                        ..info
                    },
                ),
            )
        }
    }

    /// The ledger after a native-currency deposit of `amount`: the native
    /// revenue grows by the fee, saturating.
    pub open spec fn native_deposit_result(self, amount: u64) -> LedgerView {
        LedgerView {
            native_revenue: saturating_sum(
                self.native_revenue,
                fee_of(amount, self.native_fee_percentage),
            ),
            ..self
        }
    }

    /// The ledger with no asset listed, inactive, owned by `owner`.
    pub open spec fn initial(
        owner: Seq<u8>,
        vault_address: Seq<u8>,
        native_fee_percentage: u128,
    ) -> LedgerView {
        LedgerView {
            owner,
            is_active: false,
            vault_address,
            native_fee_percentage,
            native_revenue: 0,
            slots: Seq::new(ASSET_CAPACITY as nat, |i: int| None),
        }
    }
}

/// The assets listed in `slots`, in slot order.
pub open spec fn listed_assets(slots: Seq<Option<EntryView>>) -> Seq<Seq<u8>>
    decreases slots.len(),
{
    if slots.len() == 0 {
        Seq::empty()
    } else {
        let rest = listed_assets(slots.drop_last());
        match slots.last() {
            Some(e) => rest.push(e.asset),
            None => rest,
        }
    }
}

/// Where `v` has no duplicate, the slot that holds an asset is the one that
/// `slot_of` names.
pub proof fn lemma_slot_of(v: LedgerView, i: int, asset: Seq<u8>)
    requires
        v.unique(),
        v.slot_holds(i, asset),
    ensures
        v.has_asset(asset),
        v.slot_of(asset) == i,
{
    assert(v.has_asset(asset));
    let k = v.slot_of(asset);
    assert(v.slot_holds(k, asset));
}

/// The lowest empty slot is the one that `first_free` names.
pub proof fn lemma_first_free(v: LedgerView, i: int)
    requires
        v.is_first_free(i),
    ensures
        v.first_free() == i,
{
    let k = v.first_free();
    assert(v.is_first_free(k));
    if k < i {
        assert(v.slots[k] is Some);
    } else if i < k {
        assert(v.slots[i] is Some);
    }
}

impl Default for RampState {
    /// The empty ledger: see `RampState::empty`.
    fn default() -> (r: RampState)
        ensures
            r@ == LedgerView::initial(Seq::new(32, |i: int| 0u8), Seq::new(32, |i: int| 0u8), 0),
            r.wf(),
    {
        RampState::empty()
    }
}

impl RampState {
    pub open spec fn wf(&self) -> bool {
        self@.wf()
    }

    /// An inactive ledger with no asset listed, whose owner and vault are the
    /// all-zero identifier and whose native fee and revenue are zero.
    pub fn empty() -> (r: RampState)
        ensures
            r@ == LedgerView::initial(Seq::new(32, |i: int| 0u8), Seq::new(32, |i: int| 0u8), 0),
            r.wf(),
    {
        let mut asset_entries: Vec<Option<AssetEntry>> = Vec::new();
        let mut i: usize = 0;
        while i < ASSET_CAPACITY
            invariant
                i <= ASSET_CAPACITY,
                asset_entries@.len() == i,
                forall|j: int| 0 <= j < i ==> asset_entries@[j] is None,
            decreases ASSET_CAPACITY - i,
        {
            asset_entries.push(None);
            i = i + 1;
        }
        let r = RampState {
            owner: Pubkey::zeroed(),
            is_active: false,
            vault_address: Pubkey::zeroed(),
            native_fee_percentage: 0,
            native_revenue: 0,
            asset_entries,
        };
        assert(r@.slots =~= LedgerView::initial(
            Seq::new(32, |i: int| 0u8),
            Seq::new(32, |i: int| 0u8),
            0,
        ).slots);
        r
    }

    /// Index of the slot that holds `asset`, if any.
    fn find_asset(&self, asset: &Pubkey) -> (r: Option<usize>)
        ensures
            match r {
                Some(i) => self@.slot_holds(i as int, asset@),
                None => !self@.has_asset(asset@),
            },
    {
        let mut i: usize = 0;
        while i < self.asset_entries.len()
            invariant
                i <= self.asset_entries@.len(),
                forall|j: int| 0 <= j < i ==> !self@.slot_holds(j, asset@),
            decreases self.asset_entries@.len() - i,
        {
            match &self.asset_entries[i] {
                Some(e) => {
                    if e.asset.equals(asset) {
                        return Some(i);
                    }
                },
                None => {},
            }
            i = i + 1;
        }
        None
    }

    /// Index of the lowest empty slot, if any.
    fn find_free_slot(&self) -> (r: Option<usize>)
        ensures
            match r {
                Some(i) => self@.is_first_free(i as int),
                None => self@.is_full(),
            },
    {
        let mut i: usize = 0;
        while i < self.asset_entries.len()
            invariant
                i <= self.asset_entries@.len(),
                forall|j: int| 0 <= j < i ==> self@.slots[j] is Some,
            decreases self.asset_entries@.len() - i,
        {
            if self.asset_entries[i].is_none() {
                return Some(i);
            }
            i = i + 1;
        }
        None
    }

    /// Whether `asset` is listed.
    pub fn is_allowed_asset(&self, asset: &Pubkey) -> (r: bool)
        ensures
            r == self@.has_asset(asset@),
    {
        self.find_asset(asset).is_some()
    }

    /// Fee configuration and revenue of `asset`, if it is listed.
    pub fn get_asset_info_ref(&self, asset: &Pubkey) -> (r: Option<&AssetInfo>)
        requires
            self.wf(),
        ensures
            match r {
                Some(info) => self@.has_asset(asset@) && *info == self@.info_of(asset@),
                None => !self@.has_asset(asset@),
            },
    {
        match self.find_asset(asset) {
            Some(i) => {
                proof {
                    lemma_slot_of(self@, i as int, asset@);
                }
                match &self.asset_entries[i] {
                    Some(e) => Some(&e.info),
                    None => None,
                }
            },
            None => None,
        }
    }

    /// The listed assets, in slot order.
    pub fn get_assets(&self) -> (r: Vec<Pubkey>)
        ensures
            r@.map_values(|k: Pubkey| k@) == listed_assets(self@.slots),
    {
        let mut r: Vec<Pubkey> = Vec::new();
        let mut i: usize = 0;
        while i < self.asset_entries.len()
            invariant
                i <= self.asset_entries@.len(),
                r@.map_values(|k: Pubkey| k@) == listed_assets(self@.slots.take(i as int)),
            decreases self.asset_entries@.len() - i,
        {
            proof {
                assert(self@.slots.take(i + 1).drop_last() =~= self@.slots.take(i as int));
            }
            match &self.asset_entries[i] {
                Some(e) => {
                    r.push(e.asset);
                    assert(r@.map_values(|k: Pubkey| k@) =~= listed_assets(
                        self@.slots.take(i as int),
                    ).push(e.asset@));
                },
                None => {},
            }
            i = i + 1;
        }
        assert(self@.slots.take(i as int) =~= self@.slots);
        r
    }

    pub fn set_active(&mut self, is_active: bool)
        ensures
            final(self)@ == (LedgerView { is_active, ..old(self)@ }),
    {
        self.is_active = is_active;
    }

    pub fn set_new_owner(&mut self, owner: Pubkey)
        ensures
            final(self)@ == (LedgerView { owner: owner@, ..old(self)@ }),
    {
        self.owner = owner;
    }

    pub fn set_native_fee_percentage(&mut self, fee_percentage: u128)
        ensures
            final(self)@ == (LedgerView { native_fee_percentage: fee_percentage, ..old(self)@ }),
    {
        self.native_fee_percentage = fee_percentage;
    }

    /// Lists `asset` at `fee_percentage` in the lowest empty slot.
    pub fn add_asset(&mut self, asset: Pubkey, fee_percentage: u128) -> (r: Result<(), RampError>)
        requires
            old(self).wf(),
        ensures
            final(self).wf(),
            match old(self)@.add_asset_result(asset@, fee_percentage) {
                Ok(v) => r is Ok && final(self)@ == v,
                Err(e) => r == Err::<(), RampError>(e) && final(self)@ == old(self)@,
            },
    {
        if fee_percentage > MAX_FEE_PERCENTAGE {
            return Err(RampError::InvalidFeePercentage);
        }
        if self.is_allowed_asset(&asset) {
            return Err(RampError::AssetAlreadyExists);
        }
        match self.find_free_slot() {
            Some(i) => {
                proof {
                    lemma_first_free(self@, i as int);
                }
                let entry = AssetEntry { asset, info: AssetInfo::new(fee_percentage) };
                self.asset_entries[i] = Some(entry);
                assert(self@.slots =~= old(self)@.slots.update(i as int, Some(entry@)));
                proof {
                    let v = self@;
                    assert forall|a: int, b: int|
                        0 <= a < v.slots.len() && 0 <= b < v.slots.len() && a != b
                            && v.slots[a] is Some && v.slots[b] is Some implies v.slots[a]->0.asset
                        != v.slots[b]->0.asset by {
                        if a == i {
                            assert(!old(self)@.slot_holds(b, asset@));
                        } else if b == i {
                            assert(!old(self)@.slot_holds(a, asset@));
                        }
                    }
                }
                Ok(())
            },
            None => Err(RampError::NoEmptySlot),
        }
    }

    /// Delists `asset`, emptying its slot.
    pub fn remove_asset(&mut self, asset: &Pubkey) -> (r: Result<(), RampError>)
        requires
            old(self).wf(),
        ensures
            final(self).wf(),
            match old(self)@.remove_asset_result(asset@) {
                Ok(v) => r is Ok && final(self)@ == v,
                Err(e) => r == Err::<(), RampError>(e) && final(self)@ == old(self)@,
            },
    {
        match self.find_asset(asset) {
            Some(i) => {
                proof {
                    lemma_slot_of(self@, i as int, asset@);
                }
                self.asset_entries[i] = None;
                assert(self@.slots =~= old(self)@.slots.update(i as int, None));
                Ok(())
            },
            None => Err(RampError::AssetNotFound),
        }
    }

    /// Replaces the fee and revenue of the asset in slot `i`.
    fn set_info_at(&mut self, i: usize, info: AssetInfo)
        requires
            old(self).wf(),
            0 <= i < old(self)@.slots.len(),
            old(self)@.slots[i as int] is Some,
            info.asset_fee_percentage <= MAX_FEE_PERCENTAGE,
        ensures
            final(self).wf(),
            final(self)@ == old(self)@.with_slot(
                i as int,
                Some(EntryView { asset: old(self)@.slots[i as int]->0.asset, info }),
            ),
    {
        let asset = match &self.asset_entries[i] {
            Some(e) => e.asset,
            None => Pubkey::zeroed(),
        };
        let entry = AssetEntry { asset, info };
        self.asset_entries[i] = Some(entry);
        assert(self@.slots =~= old(self)@.slots.update(i as int, Some(entry@)));
    }

    /// Sets the fee of a listed asset.
    pub fn set_asset_fee(&mut self, asset: &Pubkey, fee_percentage: u128) -> (r: Result<(), RampError>)
        requires
            old(self).wf(),
        ensures
            final(self).wf(),
            match old(self)@.set_asset_fee_result(asset@, fee_percentage) {
                Ok(v) => r is Ok && final(self)@ == v,
                Err(e) => r == Err::<(), RampError>(e) && final(self)@ == old(self)@,
            },
    {
        if fee_percentage > MAX_FEE_PERCENTAGE {
            return Err(RampError::InvalidFeePercentage);
        }
        match self.find_asset(asset) {
            Some(i) => {
                proof {
                    lemma_slot_of(self@, i as int, asset@);
                }
                let old_info = match &self.asset_entries[i] {
                    Some(e) => e.info,
                    None => AssetInfo::new(0),
                };
                let info = AssetInfo {
                    asset_fee_percentage: fee_percentage,
                    asset_revenue: old_info.asset_revenue,
                };
                self.set_info_at(i, info);
                Ok(())
            },
            None => Err(RampError::AssetNotFound),
        }
    }

    /// Accrues the fee of a deposit of `amount` of `asset` to its revenue.
    pub fn record_deposit(&mut self, asset: &Pubkey, amount: u64) -> (r: Result<(), RampError>)
        requires
            old(self).wf(),
        ensures
            final(self).wf(),
            match old(self)@.deposit_result(asset@, amount) {
                Ok(v) => r is Ok && final(self)@ == v,
                Err(e) => r == Err::<(), RampError>(e) && final(self)@ == old(self)@,
            },
    {
        match self.find_asset(asset) {
            Some(i) => {
                proof {
                    lemma_slot_of(self@, i as int, asset@);
                }
                let mut info = match &self.asset_entries[i] {
                    Some(e) => e.info,
                    None => AssetInfo::new(0),
                };
                let fee = deposit_fee(amount, info.get_fee_percentage());
                info.add_revenue(fee);
                self.set_info_at(i, info);
                Ok(())
            },
            None => Err(RampError::AssetNotFound),
        }
    }

    /// Accrues the fee of a native-currency deposit of `amount`.
    pub fn record_native_deposit(&mut self, amount: u64)
        requires
            old(self).wf(),
        ensures
            final(self).wf(),
            final(self)@ == old(self)@.native_deposit_result(amount),
    {
        let fee = deposit_fee(amount, self.native_fee_percentage);
        self.native_revenue = self.native_revenue.saturating_add(fee);
    }

    /// Mutable access to the fee and revenue of `asset`, if it is listed.
    pub fn get_asset_info(&mut self, asset: &Pubkey) -> (r: Option<&mut AssetInfo>)
        requires
            old(self).wf(),
        ensures
            match r {
                Some(info) => {
                    &&& old(self)@.has_asset(asset@)
                    &&& *info == old(self)@.info_of(asset@)
                    &&& final(self).asset_entries@ == old(self).asset_entries@.update(
                        old(self)@.slot_of(asset@),
                        Some(
                            AssetEntry {
                                asset: old(self).asset_entries@[old(self)@.slot_of(asset@)]->0.asset,
                                info: *final(info),
                            },
                        ),
                    )
                    &&& final(self).owner == old(self).owner
                    &&& final(self).is_active == old(self).is_active
                    &&& final(self).vault_address == old(self).vault_address
                    &&& final(self).native_fee_percentage == old(self).native_fee_percentage
                    &&& final(self).native_revenue == old(self).native_revenue
                },
                None => !old(self)@.has_asset(asset@) && final(self)@ == old(self)@,
            },
    {
        match self.find_asset(asset) {
            Some(i) => {
                proof {
                    lemma_slot_of(self@, i as int, asset@);
                }
                match &mut self.asset_entries[i] {
                    Some(e) => Some(&mut e.info),
                    None => None,
                }
            },
            None => None,
        }
    }
}

} // verus!
