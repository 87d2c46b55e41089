//! The fixed layout in which a ledger is stored.
//!
//! A record is `RECORD_LEN` bytes: a tag byte (1), the owner (32 bytes), the
//! activation flag (one byte, 0 or 1), the vault (32 bytes), the native fee
//! percentage and native revenue (16 bytes each, little-endian), then
//! `ASSET_CAPACITY` slots of `SLOT_LEN` bytes. An occupied slot is a tag byte
//! (1), the asset (32 bytes), its fee percentage and its revenue (16 bytes
//! each, little-endian); an empty slot is `SLOT_LEN` zero bytes. Storage may
//! be longer than a record: the bytes after it are zero.
use crate::errors::RampError;
use crate::pubkey::Pubkey;
use crate::state::{
    AssetEntry,
    AssetInfo,
    EntryView,
    LedgerView,
    RampState,
    ASSET_CAPACITY,
    MAX_FEE_PERCENTAGE,
};
use vstd::bytes::{
    lemma_auto_spec_u128_to_from_le_bytes,
    spec_u128_from_le_bytes,
    spec_u128_to_le_bytes,
};
use vstd::prelude::*;

verus! {

/// First byte of every record.
pub const RECORD_TAG: u8 = 1;

/// Bytes before the first slot.
pub const HEADER_LEN: usize = 98;

/// Bytes in one slot.
pub const SLOT_LEN: usize = 65;

/// Bytes in a record.
pub const RECORD_LEN: usize = 748;

pub open spec fn bool_byte(b: bool) -> u8 {
    if b {
        1
    } else {
        0
    }
}

pub open spec fn zeros(n: nat) -> Seq<u8> {
    Seq::new(n, |i: int| 0u8)
}

pub open spec fn all_zero(b: Seq<u8>) -> bool {
    forall|i: int| 0 <= i < b.len() ==> b[i] == 0
}

pub open spec fn slot_bytes(slot: Option<EntryView>) -> Seq<u8> {
    match slot {
        Some(e) => seq![1u8] + e.asset + spec_u128_to_le_bytes(e.info.asset_fee_percentage)
            + spec_u128_to_le_bytes(e.info.asset_revenue),
        None => zeros(SLOT_LEN as nat),
    }
}

pub open spec fn slots_bytes(slots: Seq<Option<EntryView>>) -> Seq<u8>
    decreases slots.len(),
{
    if slots.len() == 0 {
        Seq::empty()
    } else {
        slots_bytes(slots.drop_last()) + slot_bytes(slots.last())
    }
}

pub open spec fn header_bytes(v: LedgerView) -> Seq<u8> {
    seq![RECORD_TAG] + v.owner + seq![bool_byte(v.is_active)] + v.vault_address
        + spec_u128_to_le_bytes(v.native_fee_percentage) + spec_u128_to_le_bytes(v.native_revenue)
}

/// The record of a ledger.
pub open spec fn encode_ledger(v: LedgerView) -> Seq<u8> {
    header_bytes(v) + slots_bytes(v.slots)
}

/// The storage `b` holds the well-formed ledger `v`: a record of it, then
/// zero bytes.
pub open spec fn holds_ledger(b: Seq<u8>, v: LedgerView) -> bool {
    &&& v.wf()
    &&& b.len() >= RECORD_LEN
    &&& b.take(RECORD_LEN as int) == encode_ledger(v)
    &&& all_zero(b.skip(RECORD_LEN as int))
}

/// What the storage `b` holds: nothing yet where it is all zero, else the
/// ledger whose record it holds, else a corrupt record.
pub open spec fn stored_ledger(b: Seq<u8>) -> Result<LedgerView, RampError> {
    if all_zero(b) {
        Err(RampError::UninitializedAccount)
    } else if exists|v: LedgerView| holds_ledger(b, v) {
        Ok(choose|v: LedgerView| holds_ledger(b, v))
    } else {
        Err(RampError::CorruptRecordError)
    }
}

/// The pieces of one slot's bytes.
proof fn lemma_slot_bytes(slot: Option<EntryView>)
    requires
        slot is Some ==> slot->0.asset.len() == 32,
    ensures
        slot_bytes(slot).len() == SLOT_LEN,
        slot is None ==> slot_bytes(slot) == zeros(SLOT_LEN as nat),
        slot is Some ==> {
            let e = slot->0;
            let s = slot_bytes(slot);
            &&& s[0] == 1
            &&& s.subrange(1, 33) == e.asset
            &&& s.subrange(33, 49) == spec_u128_to_le_bytes(e.info.asset_fee_percentage)
            &&& s.subrange(49, 65) == spec_u128_to_le_bytes(e.info.asset_revenue)
        },
{
    lemma_auto_spec_u128_to_from_le_bytes();
    if let Some(e) = slot {
        let s = slot_bytes(slot);
        let f = spec_u128_to_le_bytes(e.info.asset_fee_percentage);
        let r = spec_u128_to_le_bytes(e.info.asset_revenue);
        assert(s.subrange(1, 33) =~= e.asset);
        assert(s.subrange(33, 49) =~= f);
        assert(s.subrange(49, 65) =~= r);
    }
}

/// Equal slot bytes come from equal slots.
proof fn lemma_slot_bytes_injective(x: Option<EntryView>, y: Option<EntryView>)
    requires
        x is Some ==> x->0.asset.len() == 32,
        y is Some ==> y->0.asset.len() == 32,
        slot_bytes(x) == slot_bytes(y),
    ensures
        x == y,
{
    lemma_auto_spec_u128_to_from_le_bytes();
    lemma_slot_bytes(x);
    lemma_slot_bytes(y);
    if x is Some && y is None {
        assert(slot_bytes(y)[0] == 0);
    } else if x is None && y is Some {
        assert(slot_bytes(x)[0] == 0);
    } else if x is Some && y is Some {
        let a = x->0;
        let b = y->0;
        assert(spec_u128_from_le_bytes(spec_u128_to_le_bytes(a.info.asset_fee_percentage))
            == a.info.asset_fee_percentage);
        assert(spec_u128_from_le_bytes(spec_u128_to_le_bytes(b.info.asset_fee_percentage))
            == b.info.asset_fee_percentage);
        assert(spec_u128_from_le_bytes(spec_u128_to_le_bytes(a.info.asset_revenue))
            == a.info.asset_revenue);
        assert(spec_u128_from_le_bytes(spec_u128_to_le_bytes(b.info.asset_revenue))
            == b.info.asset_revenue);
        assert(a.info == b.info);
    }
}

/// Slot `k` of `slots` is encoded at `SLOT_LEN * k`.
proof fn lemma_slots_bytes(slots: Seq<Option<EntryView>>, k: int)
    requires
        forall|i: int|
            0 <= i < slots.len() && slots[i] is Some ==> slots[i]->0.asset.len() == 32,
        0 <= k < slots.len(),
    ensures
        slots_bytes(slots).len() == SLOT_LEN * slots.len(),
        slots_bytes(slots).subrange(SLOT_LEN * k, SLOT_LEN * k + SLOT_LEN) == slot_bytes(slots[k]),
    decreases slots.len(),
{
    let init = slots.drop_last();
    lemma_slot_bytes(slots.last());
    if slots.len() == 1 {
        assert(slots_bytes(init) =~= Seq::<u8>::empty());
        assert(slots_bytes(slots) =~= slot_bytes(slots[0]));
    } else {
        lemma_slots_bytes(init, 0);
        if k < slots.len() - 1 {
            lemma_slots_bytes(init, k);
            assert(slots_bytes(slots).subrange(SLOT_LEN * k, SLOT_LEN * k + SLOT_LEN)
                =~= slots_bytes(init).subrange(SLOT_LEN * k, SLOT_LEN * k + SLOT_LEN));
        } else {
            assert(slots_bytes(slots).subrange(SLOT_LEN * k, SLOT_LEN * k + SLOT_LEN)
                =~= slot_bytes(slots.last()));
        }
    }
}

/// The ledger has the capacity's number of slots and 32-byte identifiers.
pub open spec fn shaped(v: LedgerView) -> bool {
    v.slots.len() == ASSET_CAPACITY && v.keys_sized()
}

/// The pieces of a record.
proof fn lemma_encode_layout(v: LedgerView)
    requires
        shaped(v),
    ensures
        header_bytes(v).len() == HEADER_LEN,
        encode_ledger(v).len() == RECORD_LEN,
        encode_ledger(v)[0] == RECORD_TAG,
        encode_ledger(v).subrange(1, 33) == v.owner,
        encode_ledger(v)[33] == bool_byte(v.is_active),
        encode_ledger(v).subrange(34, 66) == v.vault_address,
        encode_ledger(v).subrange(66, 82) == spec_u128_to_le_bytes(v.native_fee_percentage),
        encode_ledger(v).subrange(82, 98) == spec_u128_to_le_bytes(v.native_revenue),
        forall|k: int|
            0 <= k < ASSET_CAPACITY ==> #[trigger] encode_ledger(v).subrange(
                HEADER_LEN + SLOT_LEN * k,
                HEADER_LEN + SLOT_LEN * k + SLOT_LEN,
            ) == slot_bytes(v.slots[k]),
{
    lemma_auto_spec_u128_to_from_le_bytes();
    let h = header_bytes(v);
    let e = encode_ledger(v);
    lemma_slots_bytes(v.slots, 0);
    assert(e.subrange(1, 33) =~= v.owner);
    assert(e.subrange(34, 66) =~= v.vault_address);
    assert(e.subrange(66, 82) =~= spec_u128_to_le_bytes(v.native_fee_percentage));
    assert(e.subrange(82, 98) =~= spec_u128_to_le_bytes(v.native_revenue));
    assert forall|k: int| 0 <= k < ASSET_CAPACITY implies #[trigger] e.subrange(
        HEADER_LEN + SLOT_LEN * k,
        HEADER_LEN + SLOT_LEN * k + SLOT_LEN,
    ) == slot_bytes(v.slots[k]) by {
        lemma_slots_bytes(v.slots, k);
        assert(e.subrange(HEADER_LEN + SLOT_LEN * k, HEADER_LEN + SLOT_LEN * k + SLOT_LEN)
            =~= slots_bytes(v.slots).subrange(SLOT_LEN * k, SLOT_LEN * k + SLOT_LEN));
    }
}

/// Two ledgers with the same record are the same ledger.
pub proof fn lemma_encode_injective(v: LedgerView, w: LedgerView)
    requires
        shaped(v),
        shaped(w),
        encode_ledger(v) == encode_ledger(w),
    ensures
        v == w,
{
    lemma_auto_spec_u128_to_from_le_bytes();
    lemma_encode_layout(v);
    lemma_encode_layout(w);
    let e = encode_ledger(v);
    assert(v.is_active == w.is_active);
    assert(spec_u128_from_le_bytes(e.subrange(66, 82)) == v.native_fee_percentage);
    assert(spec_u128_from_le_bytes(e.subrange(66, 82)) == w.native_fee_percentage);
    assert(spec_u128_from_le_bytes(e.subrange(82, 98)) == v.native_revenue);
    assert(spec_u128_from_le_bytes(e.subrange(82, 98)) == w.native_revenue);
    assert forall|k: int| 0 <= k < ASSET_CAPACITY implies v.slots[k] == w.slots[k] by {
        assert(e.subrange(HEADER_LEN + SLOT_LEN * k, HEADER_LEN + SLOT_LEN * k + SLOT_LEN)
            == slot_bytes(v.slots[k]));
        assert(e.subrange(HEADER_LEN + SLOT_LEN * k, HEADER_LEN + SLOT_LEN * k + SLOT_LEN)
            == slot_bytes(w.slots[k]));
        lemma_slot_bytes_injective(v.slots[k], w.slots[k]);
    }
    assert(v.slots =~= w.slots);
}

/// Storage that holds a ledger yields that ledger.
pub proof fn lemma_stored_ledger(b: Seq<u8>, v: LedgerView)
    requires
        holds_ledger(b, v),
    ensures
        stored_ledger(b) == Ok::<LedgerView, RampError>(v),
{
    lemma_encode_layout(v);
    assert(b.take(RECORD_LEN as int)[0] == RECORD_TAG);
    assert(!all_zero(b));
    let w = choose|w: LedgerView| holds_ledger(b, w);
    lemma_encode_injective(v, w);
}

/// Slot contents that a record may hold: a 32-byte asset whose fee lies
/// within the bound.
pub open spec fn valid_slot(slot: Option<EntryView>) -> bool {
    slot is Some ==> slot->0.asset.len() == 32 && slot->0.info.asset_fee_percentage
        <= MAX_FEE_PERCENTAGE
}

fn is_all_zero(b: &[u8]) -> (r: bool)
    ensures
        r == all_zero(b@),
{
    let mut i: usize = 0;
    while i < b.len()
        invariant
            i <= b@.len(),
            forall|j: int| 0 <= j < i ==> b@[j] == 0,
        decreases b@.len() - i,
    {
        if b[i] != 0 {
            return false;
        }
        i = i + 1;
    }
    true
}

pub(crate) fn push_bytes(out: &mut Vec<u8>, bytes: &[u8])
    ensures
        final(out)@ == old(out)@ + bytes@,
{
    let mut i: usize = 0;
    while i < bytes.len()
        invariant
            i <= bytes@.len(),
            out@ == old(out)@ + bytes@.take(i as int),
        decreases bytes@.len() - i,
    {
        out.push(bytes[i]);
        assert(bytes@.take(i + 1) =~= bytes@.take(i as int).push(bytes@[i as int]));
        i = i + 1;
    }
    assert(bytes@.take(i as int) =~= bytes@);
}

fn push_u128(out: &mut Vec<u8>, x: u128)
    ensures
        final(out)@ == old(out)@ + spec_u128_to_le_bytes(x),
{
    let bytes = vstd::bytes::u128_to_le_bytes(x);
    push_bytes(out, bytes.as_slice());
}

fn push_slot(out: &mut Vec<u8>, slot: &Option<AssetEntry>)
    ensures
        final(out)@ == old(out)@ + slot_bytes(crate::state::slot_view(*slot)),
{
    match slot {
        Some(e) => {
            out.push(1u8);
            push_bytes(out, e.asset.bytes.as_slice());
            push_u128(out, e.info.asset_fee_percentage);
            push_u128(out, e.info.asset_revenue);
            assert(out@ =~= old(out)@ + slot_bytes(crate::state::slot_view(*slot)));
        },
        None => {
            let mut i: usize = 0;
            while i < SLOT_LEN
                invariant
                    i <= SLOT_LEN,
                    out@ == old(out)@ + zeros(i as nat),
                decreases SLOT_LEN - i,
            {
                out.push(0u8);
                assert(zeros((i + 1) as nat) =~= zeros(i as nat).push(0u8));
                i = i + 1;
            }
        },
    }
}

/// The record of `state`.
pub fn encode_state(state: &RampState) -> (r: Vec<u8>)
    requires
        state.wf(),
    ensures
        r@ == encode_ledger(state@),
{
    let mut out: Vec<u8> = Vec::new();
    out.push(RECORD_TAG);
    push_bytes(&mut out, state.owner.bytes.as_slice());
    out.push(if state.is_active { 1u8 } else { 0u8 });
    push_bytes(&mut out, state.vault_address.bytes.as_slice());
    push_u128(&mut out, state.native_fee_percentage);
    push_u128(&mut out, state.native_revenue);
    assert(out@ =~= header_bytes(state@));
    let mut k: usize = 0;
    while k < state.asset_entries.len()
        invariant
            k <= state.asset_entries@.len(),
            out@ == header_bytes(state@) + slots_bytes(state@.slots.take(k as int)),
        decreases state.asset_entries@.len() - k,
    {
        push_slot(&mut out, &state.asset_entries[k]);
        assert(state@.slots.take(k + 1).drop_last() =~= state@.slots.take(k as int));
        assert(out@ =~= header_bytes(state@) + slots_bytes(state@.slots.take(k + 1)));
        k = k + 1;
    }
    assert(state@.slots.take(k as int) =~= state@.slots);
    out
}

pub(crate) fn read_key(b: &[u8], pos: usize) -> (r: Pubkey)
    requires
        pos + 32 <= b@.len(),
    ensures
        r@ == b@.subrange(pos as int, pos + 32),
{
    let n = b.len();
    let mut bytes = [0u8; 32];
    let mut i: usize = 0;
    while i < 32
        invariant
            i <= 32,
            n == b@.len(),
            pos + 32 <= n,
            forall|j: int| 0 <= j < i ==> bytes@[j] == b@[pos + j],
        decreases 32 - i,
    {
        bytes[i] = b[pos + i];
        i = i + 1;
    }
    assert(bytes@ =~= b@.subrange(pos as int, pos + 32));
    Pubkey::new_from_array(bytes)
}

pub(crate) fn read_u128(b: &[u8], pos: usize) -> (r: u128)
    requires
        pos + 16 <= b@.len(),
    ensures
        spec_u128_to_le_bytes(r) == b@.subrange(pos as int, pos + 16),
{
    proof {
        lemma_auto_spec_u128_to_from_le_bytes();
    }
    assert(pos + 16 <= b.len());
    let end = pos + 16;
    vstd::bytes::u128_from_le_bytes(vstd::slice::slice_subrange(b, pos, end))
}

/// No valid slot is encoded by bytes whose tag is neither 0 nor 1.
proof fn lemma_no_slot_bad_tag(piece: Seq<u8>)
    requires
        piece.len() == SLOT_LEN,
        piece[0] != 0,
        piece[0] != 1,
    ensures
        forall|x: Option<EntryView>| valid_slot(x) ==> slot_bytes(x) != piece,
{
    assert forall|x: Option<EntryView>| valid_slot(x) implies slot_bytes(x) != piece by {
        lemma_slot_bytes(x);
    }
}

/// No valid slot is encoded by bytes with tag 0 and a non-zero byte after it.
proof fn lemma_no_slot_dirty_empty(piece: Seq<u8>, i: int)
    requires
        piece.len() == SLOT_LEN,
        piece[0] == 0,
        0 < i < SLOT_LEN,
        piece[i] != 0,
    ensures
        forall|x: Option<EntryView>| valid_slot(x) ==> slot_bytes(x) != piece,
{
    assert forall|x: Option<EntryView>| valid_slot(x) implies slot_bytes(x) != piece by {
        lemma_slot_bytes(x);
        if x is None {
            assert(slot_bytes(x)[i] == 0);
        }
    }
}

/// Where `piece` encodes an entry whose fee is above the bound, no valid slot
/// is encoded by it.
proof fn lemma_no_slot_high_fee(piece: Seq<u8>, e: EntryView)
    requires
        e.asset.len() == 32,
        slot_bytes(Some(e)) == piece,
        e.info.asset_fee_percentage > MAX_FEE_PERCENTAGE,
    ensures
        forall|x: Option<EntryView>| valid_slot(x) ==> slot_bytes(x) != piece,
{
    assert forall|x: Option<EntryView>| valid_slot(x) implies slot_bytes(x) != piece by {
        if slot_bytes(x) == piece {
            lemma_slot_bytes_injective(x, Some(e));
        }
    }
}

/// Reads the slot at `pos`: `Err` where no valid slot is encoded there.
fn read_slot(b: &[u8], pos: usize) -> (r: Result<Option<AssetEntry>, ()>)
    requires
        pos + SLOT_LEN <= b@.len(),
    ensures
        match r {
            Ok(slot) => {
                &&& valid_slot(crate::state::slot_view(slot))
                &&& slot_bytes(crate::state::slot_view(slot)) == b@.subrange(
                    pos as int,
                    pos + SLOT_LEN,
                )
            },
            Err(_) => forall|x: Option<EntryView>|
                valid_slot(x) ==> slot_bytes(x) != b@.subrange(pos as int, pos + SLOT_LEN),
        },
{
    let n = b.len();
    let piece = Ghost(b@.subrange(pos as int, pos + SLOT_LEN));
    if b[pos] == 0 {
        let mut i: usize = 1;
        while i < SLOT_LEN
            invariant
                1 <= i <= SLOT_LEN,
                n == b@.len(),
                pos + SLOT_LEN <= n,
                piece@ == b@.subrange(pos as int, pos + SLOT_LEN),
                forall|j: int| 0 <= j < i ==> piece@[j] == 0,
            decreases SLOT_LEN - i,
        {
            if b[pos + i] != 0 {
                proof {
                    lemma_no_slot_dirty_empty(piece@, i as int);
                }
                return Err(());
            }
            i = i + 1;
        }
        proof {
            lemma_slot_bytes(None);
            assert(piece@ =~= zeros(SLOT_LEN as nat));
        }
        Ok(None)
    } else if b[pos] == 1 {
        let asset = read_key(b, pos + 1);
        let fee = read_u128(b, pos + 33);
        let revenue = read_u128(b, pos + 49);
        let entry = AssetEntry {
            asset,
            info: AssetInfo { asset_fee_percentage: fee, asset_revenue: revenue },
        };
        proof {
            lemma_slot_bytes(Some(entry@));
            assert(slot_bytes(Some(entry@)) =~= piece@);
        }
        if fee > MAX_FEE_PERCENTAGE {
            proof {
                lemma_no_slot_high_fee(piece@, entry@);
            }
            return Err(());
        }
        Ok(Some(entry))
    } else {
        proof {
            lemma_no_slot_bad_tag(piece@);
        }
        Err(())
    }
}

/// Two byte strings of record length that agree on every piece of the
/// layout are equal.
proof fn lemma_pieces_equal(x: Seq<u8>, y: Seq<u8>)
    requires
        x.len() == RECORD_LEN,
        y.len() == RECORD_LEN,
        x[0] == y[0],
        x.subrange(1, 33) == y.subrange(1, 33),
        x[33] == y[33],
        x.subrange(34, 66) == y.subrange(34, 66),
        x.subrange(66, 82) == y.subrange(66, 82),
        x.subrange(82, 98) == y.subrange(82, 98),
        forall|k: int|
            0 <= k < ASSET_CAPACITY ==> #[trigger] x.subrange(
                HEADER_LEN + SLOT_LEN * k,
                HEADER_LEN + SLOT_LEN * k + SLOT_LEN,
            ) == y.subrange(HEADER_LEN + SLOT_LEN * k, HEADER_LEN + SLOT_LEN * k + SLOT_LEN),
    ensures
        x == y,
{
    assert forall|i: int| 0 <= i < RECORD_LEN implies x[i] == y[i] by {
        if 1 <= i < 33 {
            assert(x.subrange(1, 33)[i - 1] == x[i]);
            assert(y.subrange(1, 33)[i - 1] == y[i]);
        } else if 34 <= i < 66 {
            assert(x.subrange(34, 66)[i - 34] == x[i]);
            assert(y.subrange(34, 66)[i - 34] == y[i]);
        } else if 66 <= i < 82 {
            assert(x.subrange(66, 82)[i - 66] == x[i]);
            assert(y.subrange(66, 82)[i - 66] == y[i]);
        } else if 82 <= i < 98 {
            assert(x.subrange(82, 98)[i - 82] == x[i]);
            assert(y.subrange(82, 98)[i - 82] == y[i]);
        } else if i == 0 || i == 33 {
            assert(x[i] == y[i]);
        } else {
            let k = (i - 98) / 65;
            let j = (i - 98) % 65;
            assert(0 <= k < 10 && 0 <= j < 65 && i == 98 + 65 * k + j) by (nonlinear_arith)
                requires
                    k == (i - 98) / 65,
                    j == (i - 98) % 65,
                    98 <= i < 748,
            ;
            assert(x.subrange(HEADER_LEN + SLOT_LEN * k, HEADER_LEN + SLOT_LEN * k + SLOT_LEN)[j]
                == y.subrange(HEADER_LEN + SLOT_LEN * k, HEADER_LEN + SLOT_LEN * k + SLOT_LEN)[j]);
            assert(x[i] == y[i]);
        }
    }
    assert(x =~= y);
}

impl RampState {
    /// Whether no asset occupies two slots.
    fn assets_unique(&self) -> (r: bool)
        ensures
            r == self@.unique(),
    {
        let n = self.asset_entries.len();
        let mut i: usize = 0;
        while i < n
            invariant
                n == self@.slots.len(),
                i <= n,
                forall|a: int, b: int|
                    0 <= a < i && 0 <= b < n && a != b && self@.slots[a] is Some
                        && self@.slots[b] is Some ==> self@.slots[a]->0.asset
                        != self@.slots[b]->0.asset,
            decreases n - i,
        {
            if let Some(x) = &self.asset_entries[i] {
                let mut j: usize = 0;
                while j < n
                    invariant
                        n == self@.slots.len(),
                        i < n,
                        j <= n,
                        self@.slots[i as int] == Some(x@),
                        forall|a: int, b: int|
                            0 <= a < i && 0 <= b < n && a != b && self@.slots[a] is Some
                                && self@.slots[b] is Some ==> self@.slots[a]->0.asset
                                != self@.slots[b]->0.asset,
                        forall|b: int|
                            0 <= b < j && b != i && self@.slots[b] is Some
                                ==> x@.asset != self@.slots[b]->0.asset,
                    decreases n - j,
                {
                    if j != i {
                        if let Some(y) = &self.asset_entries[j] {
                            if x.asset.equals(&y.asset) {
                                assert(self@.slots[j as int] == Some(y@));
                                assert(self@.slots[i as int]->0.asset == self@.slots[j as int]->0.asset);
                                return false;
                            }
                        }
                    }
                    j = j + 1;
                }
            }
            i = i + 1;
        }
        true
    }
}

/// Reads the ledger that the storage `b` holds.
pub fn decode_state(b: &[u8]) -> (r: Result<RampState, RampError>)
    ensures
        match r {
            Ok(s) => {
                &&& s.wf()
                &&& stored_ledger(b@) == Ok::<LedgerView, RampError>(s@)
                &&& holds_ledger(b@, s@)
            },
            Err(e) => stored_ledger(b@) == Err::<LedgerView, RampError>(e),
        },
{
    if is_all_zero(b) {
        return Err(RampError::UninitializedAccount);
    }
    let n = b.len();
    if n < RECORD_LEN {
        return Err(RampError::CorruptRecordError);
    }
    if !is_all_zero(vstd::slice::slice_subrange(b, RECORD_LEN, n)) {
        proof {
            assert(b@.skip(RECORD_LEN as int) =~= b@.subrange(RECORD_LEN as int, n as int));
        }
        return Err(RampError::CorruptRecordError);
    }
    if b[0] != RECORD_TAG {
        proof {
            assert forall|v: LedgerView| !holds_ledger(b@, v) by {
                if holds_ledger(b@, v) {
                    lemma_encode_layout(v);
                    assert(b@.take(RECORD_LEN as int)[0] == b@[0]);
                }
            }
        }
        return Err(RampError::CorruptRecordError);
    }
    let owner = read_key(b, 1);
    let active_byte = b[33];
    if active_byte > 1 {
        proof {
            assert forall|v: LedgerView| !holds_ledger(b@, v) by {
                if holds_ledger(b@, v) {
                    lemma_encode_layout(v);
                    assert(b@.take(RECORD_LEN as int)[33] == b@[33]);
                }
            }
        }
        return Err(RampError::CorruptRecordError);
    }
    let vault_address = read_key(b, 34);
    let native_fee_percentage = read_u128(b, 66);
    let native_revenue = read_u128(b, 82);
    let mut asset_entries: Vec<Option<AssetEntry>> = Vec::new();
    let mut k: usize = 0;
    while k < ASSET_CAPACITY
        invariant
            k <= ASSET_CAPACITY,
            n == b@.len(),
            n >= RECORD_LEN,
            !all_zero(b@),
            asset_entries@.len() == k,
            forall|j: int|
                0 <= j < k ==> valid_slot(crate::state::slot_view(#[trigger] asset_entries@[j])),
            forall|j: int|
                0 <= j < k ==> slot_bytes(crate::state::slot_view(#[trigger] asset_entries@[j]))
                    == b@.subrange(HEADER_LEN + SLOT_LEN * j, HEADER_LEN + SLOT_LEN * j + SLOT_LEN),
        decreases ASSET_CAPACITY - k,
    {
        let pos = HEADER_LEN + SLOT_LEN * k;
        match read_slot(b, pos) {
            Ok(slot) => {
                asset_entries.push(slot);
            },
            Err(_) => {
                proof {
                    assert forall|v: LedgerView| !holds_ledger(b@, v) by {
                        if holds_ledger(b@, v) {
                            lemma_encode_layout(v);
                            assert(encode_ledger(v).subrange(
                                HEADER_LEN + SLOT_LEN * k,
                                HEADER_LEN + SLOT_LEN * k + SLOT_LEN,
                            ) == slot_bytes(v.slots[k as int]));
                            assert(b@.take(RECORD_LEN as int).subrange(pos as int, pos + SLOT_LEN)
                                =~= b@.subrange(pos as int, pos + SLOT_LEN));
                            assert(valid_slot(v.slots[k as int]));
                        }
                    }
                }
                return Err(RampError::CorruptRecordError);
            },
        }
        k = k + 1;
    }
    let state = RampState {
        owner,
        is_active: active_byte == 1,
        vault_address,
        native_fee_percentage,
        native_revenue,
        asset_entries,
    };
    proof {
        let v = state@;
        assert forall|i: int| 0 <= i < v.slots.len() && v.slots[i] is Some implies v.slots[i]->0.asset.len() == 32 by {
            assert(valid_slot(crate::state::slot_view(state.asset_entries@[i])));
        }
        assert(shaped(v));
        lemma_encode_layout(v);
        let t = b@.take(RECORD_LEN as int);
        let e = encode_ledger(v);
        assert(t.subrange(1, 33) =~= b@.subrange(1, 33));
        assert(t.subrange(34, 66) =~= b@.subrange(34, 66));
        assert(t.subrange(66, 82) =~= b@.subrange(66, 82));
        assert(t.subrange(82, 98) =~= b@.subrange(82, 98));
        assert forall|k: int| 0 <= k < ASSET_CAPACITY implies #[trigger] e.subrange(
            HEADER_LEN + SLOT_LEN * k,
            HEADER_LEN + SLOT_LEN * k + SLOT_LEN,
        ) == t.subrange(HEADER_LEN + SLOT_LEN * k, HEADER_LEN + SLOT_LEN * k + SLOT_LEN) by {
            assert(t.subrange(HEADER_LEN + SLOT_LEN * k, HEADER_LEN + SLOT_LEN * k + SLOT_LEN)
                =~= b@.subrange(HEADER_LEN + SLOT_LEN * k, HEADER_LEN + SLOT_LEN * k + SLOT_LEN));
            assert(b@.subrange(HEADER_LEN + SLOT_LEN * k, HEADER_LEN + SLOT_LEN * k + SLOT_LEN)
                == slot_bytes(crate::state::slot_view(state.asset_entries@[k])));
        }
        lemma_pieces_equal(e, t);
        assert forall|w: LedgerView| holds_ledger(b@, w) implies w == v by {
            lemma_encode_injective(w, v);
        }
        assert(all_zero(b@.skip(RECORD_LEN as int))) by {
            assert(b@.skip(RECORD_LEN as int) =~= b@.subrange(RECORD_LEN as int, n as int));
        }
    }
    if !state.assets_unique() {
        return Err(RampError::CorruptRecordError);
    }
    proof {
        assert forall|i: int| 0 <= i < state@.slots.len() && state@.slots[i] is Some implies state@.slots[i]->0.info.asset_fee_percentage <= MAX_FEE_PERCENTAGE by {
            assert(valid_slot(crate::state::slot_view(state.asset_entries@[i])));
        }
        lemma_stored_ledger(b@, state@);
    }
    Ok(state)
}

/// The record of a well-formed ledger holds that ledger.
pub proof fn lemma_record_holds(v: LedgerView)
    requires
        v.wf(),
    ensures
        holds_ledger(encode_ledger(v), v),
        encode_ledger(v).len() == RECORD_LEN,
{
    lemma_encode_layout(v);
    let e = encode_ledger(v);
    assert(e.take(RECORD_LEN as int) =~= e);
    assert(e.skip(RECORD_LEN as int) =~= Seq::<u8>::empty());
}

/// Writes the record of `state` into `record`: zero-fills the storage, then
/// writes the record at its start. Storage shorter than a record is left
/// untouched.
pub fn store_state(state: &RampState, record: &mut Vec<u8>) -> (r: Result<(), RampError>)
    requires
        state.wf(),
    ensures
        match r {
            Ok(_) => {
                &&& old(record)@.len() >= RECORD_LEN
                &&& final(record)@.len() == old(record)@.len()
                &&& holds_ledger(final(record)@, state@)
            },
            Err(e) => {
                &&& old(record)@.len() < RECORD_LEN
                &&& e == RampError::OversizeError
                &&& final(record)@ == old(record)@
            },
        },
{
    let encoded = encode_state(state);
    proof {
        lemma_record_holds(state@);
    }
    let n = record.len();
    if encoded.len() > n {
        return Err(RampError::OversizeError);
    }
    let mut i: usize = 0;
    while i < n
        invariant
            i <= n,
            record@.len() == n,
            forall|j: int| 0 <= j < i ==> record@[j] == 0,
        decreases n - i,
    {
        record[i] = 0;
        i = i + 1;
    }
    let mut i: usize = 0;
    while i < encoded.len()
        invariant
            i <= encoded@.len(),
            encoded@.len() <= n,
            record@.len() == n,
            forall|j: int| 0 <= j < i ==> record@[j] == encoded@[j],
            forall|j: int| i <= j < n ==> record@[j] == 0,
        decreases encoded@.len() - i,
    {
        record[i] = encoded[i];
        i = i + 1;
    }
    assert(record@.take(RECORD_LEN as int) =~= encoded@);
    Ok(())
}

} // verus!
