use ramp_solana::codec::{decode_state, encode_state, store_state, RECORD_LEN};
use ramp_solana::errors::RampError;
use ramp_solana::pubkey::Pubkey;
use ramp_solana::state::{deposit_fee, AssetInfo, RampState, ASSET_CAPACITY};

fn key(n: u8) -> Pubkey {
    Pubkey::new_from_array([n; 32])
}

fn ledger() -> RampState {
    let mut s = RampState::empty();
    s.set_new_owner(key(1));
    s.vault_address = key(2);
    s
}

#[test]
fn default_ledger_is_empty_and_inactive() {
    let s = RampState::default();
    assert!(!s.is_active);
    assert!(s.owner == Pubkey::zeroed());
    assert_eq!(s.asset_entries.len(), ASSET_CAPACITY);
    assert!(s.get_assets().is_empty());
    assert_eq!(s.native_fee_percentage, 0);
}

#[test]
fn asset_info_new_has_no_revenue() {
    let info = AssetInfo::new(10);
    assert_eq!(info.get_fee_percentage(), 10);
    assert_eq!(info.get_revenue(), 0);
}

#[test]
fn add_revenue_adds_and_saturates() {
    let mut info = AssetInfo::new(10);
    info.add_revenue(7);
    info.add_revenue(5);
    assert_eq!(info.get_revenue(), 12);
    info.add_revenue(u128::MAX - 2);
    assert_eq!(info.get_revenue(), u128::MAX);
    assert_eq!(info.get_fee_percentage(), 10);
}

#[test]
fn deposit_fee_rounds_down() {
    assert_eq!(deposit_fee(100, 10), 10);
    assert_eq!(deposit_fee(99, 10), 9);
    assert_eq!(deposit_fee(1, 99), 0);
    assert_eq!(deposit_fee(1000, 0), 0);
    assert_eq!(deposit_fee(u64::MAX, 100), u64::MAX as u128);
    assert_eq!(deposit_fee(100, 250), 250);
    assert_eq!(deposit_fee(7, 1050), 73);
    assert_eq!(deposit_fee(101, u128::MAX), u128::MAX);
    assert_eq!(deposit_fee(1, u128::MAX), u128::MAX / 100);
}

#[test]
fn add_asset_lists_in_lowest_slot() {
    let mut s = ledger();
    assert_eq!(s.add_asset(key(10), 5), Ok(()));
    assert_eq!(s.add_asset(key(11), 7), Ok(()));
    assert!(s.is_allowed_asset(&key(10)));
    assert!(!s.is_allowed_asset(&key(12)));
    assert_eq!(s.get_assets(), vec![key(10), key(11)]);
    assert_eq!(s.get_asset_info_ref(&key(11)), Some(&AssetInfo { asset_fee_percentage: 7, asset_revenue: 0 }));
    assert_eq!(s.remove_asset(&key(10)), Ok(()));
    assert_eq!(s.add_asset(key(12), 1), Ok(()));
    assert!(s.asset_entries[0].unwrap().asset == key(12));
}

#[test]
fn add_asset_refuses_duplicate() {
    let mut s = ledger();
    assert_eq!(s.add_asset(key(10), 5), Ok(()));
    assert_eq!(s.add_asset(key(10), 6), Err(RampError::AssetAlreadyExists));
    assert_eq!(s.get_assets(), vec![key(10)]);
    assert_eq!(s.get_asset_info_ref(&key(10)).unwrap().asset_fee_percentage, 5);
}

#[test]
fn add_asset_refuses_fee_above_bound() {
    let mut s = ledger();
    assert_eq!(s.add_asset(key(10), 101), Err(RampError::InvalidFeePercentage));
    assert_eq!(s.add_asset(key(10), 100), Ok(()));
    assert_eq!(s.set_asset_fee(&key(10), 150), Err(RampError::InvalidFeePercentage));
    assert_eq!(s.get_asset_info_ref(&key(10)).unwrap().asset_fee_percentage, 100);
}

#[test]
fn add_asset_beyond_capacity_fails() {
    let mut s = ledger();
    for i in 0..ASSET_CAPACITY {
        assert_eq!(s.add_asset(key(10 + i as u8), 1), Ok(()));
    }
    let before = encode_state(&s);
    assert_eq!(s.add_asset(key(100), 1), Err(RampError::NoEmptySlot));
    assert_eq!(encode_state(&s), before);
    assert_eq!(s.get_assets().len(), ASSET_CAPACITY);
}

#[test]
fn remove_asset_of_unlisted_fails() {
    let mut s = ledger();
    assert_eq!(s.remove_asset(&key(10)), Err(RampError::AssetNotFound));
}

#[test]
fn record_deposit_accrues_fee() {
    let mut s = ledger();
    s.add_asset(key(10), 10).unwrap();
    assert_eq!(s.record_deposit(&key(10), 100), Ok(()));
    assert_eq!(s.record_deposit(&key(10), 55), Ok(()));
    assert_eq!(s.get_asset_info_ref(&key(10)).unwrap().asset_revenue, 15);
    assert_eq!(s.record_deposit(&key(11), 100), Err(RampError::AssetNotFound));
}

#[test]
fn record_native_deposit_accrues_fee() {
    let mut s = ledger();
    s.set_native_fee_percentage(20);
    s.record_native_deposit(1000);
    s.record_native_deposit(9);
    assert_eq!(s.native_revenue, 201);
    s.set_native_fee_percentage(250);
    s.record_native_deposit(10);
    assert_eq!(s.native_fee_percentage, 250);
    assert_eq!(s.native_revenue, 226);
}

#[test]
fn get_asset_info_gives_mutable_access() {
    let mut s = ledger();
    s.add_asset(key(10), 10).unwrap();
    s.get_asset_info(&key(10)).unwrap().add_revenue(42);
    assert_eq!(s.get_asset_info_ref(&key(10)).unwrap().asset_revenue, 42);
    assert!(s.get_asset_info(&key(11)).is_none());
}

#[test]
fn record_round_trips() {
    let mut s = ledger();
    s.is_active = true;
    s.set_native_fee_percentage(3);
    s.record_native_deposit(1000);
    s.add_asset(key(10), 10).unwrap();
    s.add_asset(key(11), 0).unwrap();
    s.record_deposit(&key(10), 12345).unwrap();
    s.remove_asset(&key(11)).unwrap();
    s.add_asset(key(12), 99).unwrap();
    let bytes = encode_state(&s);
    assert_eq!(bytes.len(), RECORD_LEN);
    let t = decode_state(&bytes).unwrap();
    assert!(t.owner == s.owner);
    assert!(t.vault_address == s.vault_address);
    assert_eq!(t.is_active, s.is_active);
    assert_eq!(t.native_fee_percentage, 3);
    assert_eq!(t.native_revenue, 30);
    assert_eq!(t.get_assets(), vec![key(10), key(12)]);
    assert_eq!(t.get_asset_info_ref(&key(10)).unwrap().asset_revenue, 1234);
    assert_eq!(encode_state(&t), bytes);
}

#[test]
fn record_layout_matches_borsh_integers() {
    let mut s = ledger();
    s.set_native_fee_percentage(77);
    s.native_revenue = 0x0102_0304_0506_0708_090a_0b0c_0d0e_0f10;
    let bytes = encode_state(&s);
    assert_eq!(bytes[0], 1);
    assert_eq!(&bytes[1..33], &[1u8; 32]);
    assert_eq!(bytes[33], 0);
    assert_eq!(&bytes[34..66], &[2u8; 32]);
    assert_eq!(bytes[66..82].to_vec(), borsh::to_vec(&77u128).unwrap());
    assert_eq!(bytes[82..98].to_vec(), borsh::to_vec(&s.native_revenue).unwrap());
    assert!(bytes[98..].iter().all(|b| *b == 0));
}

#[test]
fn decode_of_zeroed_storage_is_uninitialized() {
    assert_eq!(decode_state(&[0u8; RECORD_LEN]).err(), Some(RampError::UninitializedAccount));
    assert_eq!(decode_state(&[]).err(), Some(RampError::UninitializedAccount));
}

#[test]
fn decode_rejects_malformed_records() {
    let mut s = ledger();
    s.add_asset(key(10), 10).unwrap();
    let good = encode_state(&s);

    let mut bad_tag = good.clone();
    bad_tag[0] = 2;
    assert_eq!(decode_state(&bad_tag).err(), Some(RampError::CorruptRecordError));

    assert_eq!(decode_state(&good[..RECORD_LEN - 1]).err(), Some(RampError::CorruptRecordError));

    let mut bad_flag = good.clone();
    bad_flag[33] = 2;
    assert_eq!(decode_state(&bad_flag).err(), Some(RampError::CorruptRecordError));

    let mut trailing = good.clone();
    trailing.push(7);
    assert_eq!(decode_state(&trailing).err(), Some(RampError::CorruptRecordError));

    let mut padded = good.clone();
    padded.extend_from_slice(&[0u8; 16]);
    assert!(decode_state(&padded).is_ok());

    let mut high_fee = good.clone();
    high_fee[98 + 33] = 101;
    assert_eq!(decode_state(&high_fee).err(), Some(RampError::CorruptRecordError));

    let mut high_native_fee = good.clone();
    high_native_fee[66] = 101;
    assert_eq!(decode_state(&high_native_fee).unwrap().native_fee_percentage, 101);

    let mut dirty_empty_slot = good.clone();
    dirty_empty_slot[98 + 65 + 5] = 1;
    assert_eq!(decode_state(&dirty_empty_slot).err(), Some(RampError::CorruptRecordError));

    let mut duplicate = good.clone();
    let first_slot = good[98..98 + 65].to_vec();
    duplicate[98 + 65..98 + 130].copy_from_slice(&first_slot);
    assert_eq!(decode_state(&duplicate).err(), Some(RampError::CorruptRecordError));
}

#[test]
fn store_zero_fills_then_writes() {
    let s = ledger();
    let mut storage = vec![9u8; RECORD_LEN + 10];
    assert_eq!(store_state(&s, &mut storage), Ok(()));
    assert_eq!(storage.len(), RECORD_LEN + 10);
    assert_eq!(storage[..RECORD_LEN].to_vec(), encode_state(&s));
    assert!(storage[RECORD_LEN..].iter().all(|b| *b == 0));
    assert!(decode_state(&storage).is_ok());
}

#[test]
fn store_into_short_storage_fails_untouched() {
    let s = ledger();
    let mut storage = vec![9u8; RECORD_LEN - 1];
    assert_eq!(store_state(&s, &mut storage), Err(RampError::OversizeError));
    assert_eq!(storage, vec![9u8; RECORD_LEN - 1]);
}
