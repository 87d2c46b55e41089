//! The notification that a deposit emits for off-chain settlement.
//!
//! Its bytes are: the asset (32 bytes), the asset's display name (UTF-8,
//! after its byte length as a little-endian `u32`), the amount (little-endian
//! `u64`), the depositor (32 bytes), the medium and the region (one byte
//! each, their position in the declaration), and the depositor's data (after
//! its length as a little-endian `u32`). The notification is these bytes in
//! standard base64.
use base64::Engine;
use crate::codec::push_bytes;
use crate::instructions::{Medium, Region};
use crate::pubkey::Pubkey;
use vstd::bytes::{spec_u32_to_le_bytes, spec_u64_to_le_bytes};
use vstd::prelude::*;
use vstd::utf8::encode_utf8;

verus! {

/// What a deposit reports.
#[derive(Clone, Debug)]
pub struct RampDeposit {
    pub asset: Pubkey,
    pub asset_name: String,
    pub amount: u64,
    pub sender: Pubkey,
    pub medium: Medium,
    pub region: Region,
    pub data: Vec<u8>,
}

pub open spec fn medium_byte(m: Medium) -> u8 {
    match m {
        Medium::Primary => 0,
        Medium::Secondary => 1,
        Medium::Tertiary => 2,
    }
}

pub open spec fn region_byte(r: Region) -> u8 {
    match r {
        Region::KEN => 0,
        Region::NGA => 1,
        Region::UGA => 2,
        Region::RWA => 3,
        Region::GHN => 4,
        Region::EGY => 5,
    }
}

/// A byte string after its length as a little-endian `u32`.
pub open spec fn length_prefixed(b: Seq<u8>) -> Seq<u8> {
    spec_u32_to_le_bytes(b.len() as u32) + b
}

pub open spec fn deposit_bytes(d: RampDeposit) -> Seq<u8> {
    d.asset@ + length_prefixed(encode_utf8(d.asset_name@)) + spec_u64_to_le_bytes(d.amount)
        + d.sender@ + seq![medium_byte(d.medium), region_byte(d.region)] + length_prefixed(d.data@)
}

/// The standard base64 text of `bytes`.
pub uninterp spec fn base64_of(bytes: Seq<u8>) -> Seq<char>;

/// Relies on `base64::engine::general_purpose::STANDARD.encode`: the padded
/// standard base64 text of `bytes`, which depends on the bytes alone, four
/// ASCII characters for every started group of three bytes (`encoded_len`
/// with padding). It panics only where the text's length overflows `usize`,
/// which the bound on the input rules out.
#[verifier::external_body]
fn base64_encode(bytes: &[u8]) -> (r: String)
    requires
        bytes@.len() <= usize::MAX / 2,
    ensures
        r@ == base64_of(bytes@),
        r@.len() == 4 * ((bytes@.len() + 2) / 3),
{
    base64::engine::general_purpose::STANDARD.encode(bytes)
}

fn medium_to_byte(m: Medium) -> (r: u8)
    ensures
        r == medium_byte(m),
{
    match m {
        Medium::Primary => 0,
        Medium::Secondary => 1,
        Medium::Tertiary => 2,
    }
}

fn region_to_byte(r: Region) -> (b: u8)
    ensures
        b == region_byte(r),
{
    match r {
        Region::KEN => 0,
        Region::NGA => 1,
        Region::UGA => 2,
        Region::RWA => 3,
        Region::GHN => 4,
        Region::EGY => 5,
    }
}

fn push_length_prefixed(out: &mut Vec<u8>, bytes: &[u8])
    requires
        bytes@.len() <= u32::MAX,
    ensures
        final(out)@ == old(out)@ + length_prefixed(bytes@),
{
    let len = vstd::bytes::u32_to_le_bytes(bytes.len() as u32);
    push_bytes(out, len.as_slice());
    push_bytes(out, bytes);
    assert(final(out)@ =~= old(out)@ + length_prefixed(bytes@));
}

impl RampDeposit {
    /// The notification of a deposit of a listed asset.
    pub fn new(
        asset: Pubkey,
        asset_name: String,
        amount: u64,
        sender: Pubkey,
        medium: Medium,
        region: Region,
        data: Vec<u8>,
    ) -> (r: RampDeposit)
        ensures
            r.asset == asset,
            r.asset_name@ == asset_name@,
            r.amount == amount,
            r.sender == sender,
            r.medium == medium,
            r.region == region,
            r.data@ == data@,
    {
        RampDeposit { asset, asset_name, amount, sender, medium, region, data }
    }

    /// The bytes of the notification.
    pub fn to_bytes(&self) -> (r: Vec<u8>)
        requires
            encode_utf8(self.asset_name@).len() <= u32::MAX,
            self.data@.len() <= u32::MAX,
        ensures
            r@ == deposit_bytes(*self),
    {
        let mut out: Vec<u8> = Vec::new();
        push_bytes(&mut out, self.asset.bytes.as_slice());
        push_length_prefixed(&mut out, self.asset_name.as_str().as_bytes());
        let amount = vstd::bytes::u64_to_le_bytes(self.amount);
        push_bytes(&mut out, amount.as_slice());
        push_bytes(&mut out, self.sender.bytes.as_slice());
        out.push(medium_to_byte(self.medium));
        out.push(region_to_byte(self.region));
        push_length_prefixed(&mut out, self.data.as_slice());
        assert(out@ =~= deposit_bytes(*self));
        out
    }

    /// The notification as the text that is published: the base64 of its
    /// bytes.
    pub fn to_notification(&self) -> (r: String)
        requires
            encode_utf8(self.asset_name@).len() <= u32::MAX,
            self.data@.len() <= u32::MAX,
            deposit_bytes(*self).len() <= usize::MAX / 2,
        ensures
            r@ == base64_of(deposit_bytes(*self)),
            r@.len() == 4 * ((deposit_bytes(*self).len() + 2) / 3),
    {
        let bytes = self.to_bytes();
        base64_encode(bytes.as_slice())
    }
}

} // verus!
