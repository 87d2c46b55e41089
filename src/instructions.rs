//! The operations of the ledger and their arguments.
use crate::codec::{bool_byte, read_key, read_u128};
use crate::errors::RampError;
use crate::models::{length_prefixed, medium_byte, region_byte};
use crate::pubkey::Pubkey;
use vstd::bytes::{
    lemma_auto_spec_u128_to_from_le_bytes,
    lemma_auto_spec_u32_to_from_le_bytes,
    lemma_auto_spec_u64_to_from_le_bytes,
    spec_u128_to_le_bytes,
    spec_u32_to_le_bytes,
    spec_u64_to_le_bytes,
};
use vstd::prelude::*;

verus! {

/// Region where an off-ramp deposit originates.
#[derive(Clone, Copy, Debug, PartialEq, Eq, Structural)]
pub enum Region {
    KEN,
    NGA,
    UGA,
    RWA,
    GHN,
    EGY,
}

/// Channel through which off-chain funds are paid out.
#[derive(Clone, Copy, Debug, PartialEq, Eq, Structural)]
pub enum Medium {
    Primary,
    Secondary,
    Tertiary,
}

/// Creates the ledger: vault address, native-currency fee, and the bump seed
/// of the record's derived address.
#[derive(Clone, Copy, Debug)]
pub struct InitializeProgramInstruction {
    pub bump: u8,
    pub vault_address: Pubkey,
    pub native_fee_percentage: u128,
}

/// Hands the ledger to a new owner.
#[derive(Clone, Copy, Debug)]
pub struct SetOwnerInstruction {
    pub new_owner: Pubkey,
}

/// Turns deposits and withdrawals on or off.
#[derive(Clone, Copy, Debug, PartialEq, Eq, Structural)]
pub struct SetActiveInstruction {
    pub is_active: bool,
}

/// Lists an asset at a fee, funding its custody account with
/// `initial_amount`.
#[derive(Clone, Copy, Debug, PartialEq, Eq, Structural)]
pub struct AddAssetsInstruction {
    pub initial_amount: u64,
    pub fee_percentage: u128,
}

/// Delists an asset; the asset itself is named by the accounts of the call.
#[derive(Clone, Copy, Debug, PartialEq, Eq, Structural)]
pub struct RemoveAssetsInstruction {}

/// Changes the fee of a listed asset.
#[derive(Clone, Copy, Debug)]
pub struct SetAssetFeeInstruction {
    pub asset_mint: Pubkey,
    pub fee_percentage: u128,
}

/// Changes the fee on native-currency deposits.
#[derive(Clone, Copy, Debug, PartialEq, Eq, Structural)]
pub struct SetNativeFeePercentageInstruction {
    pub fee_percentage: u128,
}

/// Deposits `amount` of an asset for an off-chain payout.
#[derive(Clone, Debug)]
pub struct OffRampDepositInstruction {
    pub amount: u64,
    pub region: Region,
    pub medium: Medium,
    pub data: Vec<u8>,
}

/// Deposits `amount` of the native currency for an off-chain payout.
#[derive(Clone, Debug)]
pub struct OffRampDepositNativeInstruction {
    pub amount: u64,
    pub region: Region,
    pub medium: Medium,
    pub data: Vec<u8>,
}

/// Releases `amount` of an asset from custody.
#[derive(Clone, Copy, Debug, PartialEq, Eq, Structural)]
pub struct OnRampWithdrawInstruction {
    pub amount: u64,
}

/// Releases `amount` of the native currency from the ledger's balance.
#[derive(Clone, Copy, Debug, PartialEq, Eq, Structural)]
pub struct OnRampWithdrawNativeInstruction {
    pub amount: u64,
}

/// One operation with its arguments. Its bytes are its position in this
/// list (one byte), then its arguments in order: integers little-endian, an
/// identifier as its 32 bytes, a flag as 0 or 1, a region or medium as its
/// position (one byte), and the deposit data after its length as a
/// little-endian `u32`.
#[derive(Clone, Debug)]
pub enum Instruction {
    SetActive(SetActiveInstruction),
    RemoveAssets(RemoveAssetsInstruction),
    SetOwner(SetOwnerInstruction),
    AddAssets(AddAssetsInstruction),
    InitializeProgram(InitializeProgramInstruction),
    OffRampDepositToken22(OffRampDepositInstruction),
    OffRampDeposit(OffRampDepositInstruction),
    OnRampWithdraw(OnRampWithdrawInstruction),
    OffRampDepositNative(OffRampDepositNativeInstruction),
    OnRampWithdrawNative(OnRampWithdrawNativeInstruction),
    SetNativeFeePercentage(SetNativeFeePercentageInstruction),
    SetAssetFee(SetAssetFeeInstruction),
}

/// The operation that a call carries.
#[derive(Clone, Debug)]
pub struct RampInstruction {
    pub instruction: Instruction,
}

pub open spec fn deposit_args_bytes(amount: u64, region: Region, medium: Medium, data: Seq<u8>) -> Seq<u8> {
    spec_u64_to_le_bytes(amount) + seq![region_byte(region), medium_byte(medium)] + length_prefixed(data)
}

/// The bytes of an operation.
pub open spec fn instruction_bytes(ins: Instruction) -> Seq<u8> {
    match ins {
        Instruction::SetActive(a) => seq![0u8, bool_byte(a.is_active)],
        Instruction::RemoveAssets(_) => seq![1u8],
        Instruction::SetOwner(a) => seq![2u8] + a.new_owner@,
        Instruction::AddAssets(a) => seq![3u8] + spec_u64_to_le_bytes(a.initial_amount)
            + spec_u128_to_le_bytes(a.fee_percentage),
        Instruction::InitializeProgram(a) => seq![4u8, a.bump] + a.vault_address@
            + spec_u128_to_le_bytes(a.native_fee_percentage),
        Instruction::OffRampDepositToken22(a) => seq![5u8] + deposit_args_bytes(
            a.amount,
            a.region,
            a.medium,
            a.data@,
        ),
        Instruction::OffRampDeposit(a) => seq![6u8] + deposit_args_bytes(
            a.amount,
            a.region,
            a.medium,
            a.data@,
        ),
        Instruction::OnRampWithdraw(a) => seq![7u8] + spec_u64_to_le_bytes(a.amount),
        Instruction::OffRampDepositNative(a) => seq![8u8] + deposit_args_bytes(
            a.amount,
            a.region,
            a.medium,
            a.data@,
        ),
        Instruction::OnRampWithdrawNative(a) => seq![9u8] + spec_u64_to_le_bytes(a.amount),
        Instruction::SetNativeFeePercentage(a) => seq![10u8] + spec_u128_to_le_bytes(
            a.fee_percentage,
        ),
        Instruction::SetAssetFee(a) => seq![11u8] + a.asset_mint@ + spec_u128_to_le_bytes(
            a.fee_percentage,
        ),
    }
}

/// The deposit data of an operation, where it carries some.
pub open spec fn deposit_data(ins: Instruction) -> Option<Seq<u8>> {
    match ins {
        Instruction::OffRampDepositToken22(a) => Some(a.data@),
        Instruction::OffRampDeposit(a) => Some(a.data@),
        Instruction::OffRampDepositNative(a) => Some(a.data@),
        _ => None,
    }
}

/// An operation that has bytes: its deposit data, if any, has a length that
/// fits in a `u32`.
pub open spec fn encodable(ins: Instruction) -> bool {
    deposit_data(ins) is Some ==> deposit_data(ins)->0.len() <= u32::MAX
}

/// The bytes of a deposit's arguments: where they lie and what they hold.
proof fn lemma_deposit_args_bytes(amount: u64, region: Region, medium: Medium, data: Seq<u8>)
    requires
        data.len() <= u32::MAX,
    ensures
        ({
            let s = deposit_args_bytes(amount, region, medium, data);
            &&& s.len() == 14 + data.len()
            &&& s.subrange(0, 8) == spec_u64_to_le_bytes(amount)
            &&& s[8] == region_byte(region)
            &&& s[9] == medium_byte(medium)
            &&& s.subrange(10, 14) == spec_u32_to_le_bytes(data.len() as u32)
            &&& s.subrange(14, s.len() as int) == data
        }),
{
    lemma_auto_spec_u64_to_from_le_bytes();
    lemma_auto_spec_u32_to_from_le_bytes();
    let s = deposit_args_bytes(amount, region, medium, data);
    assert(s.subrange(0, 8) =~= spec_u64_to_le_bytes(amount));
    assert(s.subrange(10, 14) =~= spec_u32_to_le_bytes(data.len() as u32));
    assert(s.subrange(14, s.len() as int) =~= data);
}

/// Where the bytes of the deposit arguments at `off` hold no valid deposit
/// arguments, no encodable deposit operation has bytes `b`.
proof fn lemma_no_deposit(b: Seq<u8>, tag: u8)
    requires
        b.len() >= 1,
        b[0] == tag,
        tag == 5 || tag == 6 || tag == 8,
        forall|amount: u64, region: Region, medium: Medium, data: Seq<u8>|
            data.len() <= u32::MAX ==> deposit_args_bytes(amount, region, medium, data) != b.subrange(
                1,
                b.len() as int,
            ),
    ensures
        forall|ins: Instruction| encodable(ins) ==> instruction_bytes(ins) != b,
{
    assert forall|ins: Instruction| encodable(ins) implies instruction_bytes(ins) != b by {
        if instruction_bytes(ins) == b {
            match ins {
                Instruction::OffRampDepositToken22(a) => {
                    assert(b.subrange(1, b.len() as int) =~= deposit_args_bytes(
                        a.amount,
                        a.region,
                        a.medium,
                        a.data@,
                    ));
                },
                Instruction::OffRampDeposit(a) => {
                    assert(b.subrange(1, b.len() as int) =~= deposit_args_bytes(
                        a.amount,
                        a.region,
                        a.medium,
                        a.data@,
                    ));
                },
                Instruction::OffRampDepositNative(a) => {
                    assert(b.subrange(1, b.len() as int) =~= deposit_args_bytes(
                        a.amount,
                        a.region,
                        a.medium,
                        a.data@,
                    ));
                },
                _ => {
                    assert(instruction_bytes(ins)[0] != tag);
                },
            }
        }
    }
}

fn region_from_byte(b: u8) -> (r: Option<Region>)
    ensures
        match r {
            Some(region) => region_byte(region) == b,
            None => b > 5 && forall|region: Region| region_byte(region) != b,
        },
{
    if b == 0 {
        Some(Region::KEN)
    } else if b == 1 {
        Some(Region::NGA)
    } else if b == 2 {
        Some(Region::UGA)
    } else if b == 3 {
        Some(Region::RWA)
    } else if b == 4 {
        Some(Region::GHN)
    } else if b == 5 {
        Some(Region::EGY)
    } else {
        None
    }
}

fn medium_from_byte(b: u8) -> (r: Option<Medium>)
    ensures
        match r {
            Some(medium) => medium_byte(medium) == b,
            None => b > 2 && forall|medium: Medium| medium_byte(medium) != b,
        },
{
    if b == 0 {
        Some(Medium::Primary)
    } else if b == 1 {
        Some(Medium::Secondary)
    } else if b == 2 {
        Some(Medium::Tertiary)
    } else {
        None
    }
}

fn read_u64(b: &[u8], pos: usize) -> (r: u64)
    requires
        pos + 8 <= b@.len(),
    ensures
        spec_u64_to_le_bytes(r) == b@.subrange(pos as int, pos + 8),
{
    proof {
        lemma_auto_spec_u64_to_from_le_bytes();
    }
    assert(pos + 8 <= b.len());
    let end = pos + 8;
    vstd::bytes::u64_from_le_bytes(vstd::slice::slice_subrange(b, pos, end))
}

fn read_u32(b: &[u8], pos: usize) -> (r: u32)
    requires
        pos + 4 <= b@.len(),
    ensures
        spec_u32_to_le_bytes(r) == b@.subrange(pos as int, pos + 4),
{
    proof {
        lemma_auto_spec_u32_to_from_le_bytes();
    }
    assert(pos + 4 <= b.len());
    let end = pos + 4;
    vstd::bytes::u32_from_le_bytes(vstd::slice::slice_subrange(b, pos, end))
}

/// Reads the deposit arguments that follow the tag byte.
fn read_deposit_args(b: &[u8]) -> (r: Option<(u64, Region, Medium, Vec<u8>)>)
    requires
        b@.len() >= 1,
    ensures
        match r {
            Some((amount, region, medium, data)) => {
                &&& data@.len() <= u32::MAX
                &&& deposit_args_bytes(amount, region, medium, data@) == b@.subrange(
                    1,
                    b@.len() as int,
                )
            },
            None => forall|amount: u64, region: Region, medium: Medium, data: Seq<u8>|
                data.len() <= u32::MAX ==> deposit_args_bytes(amount, region, medium, data)
                    != b@.subrange(1, b@.len() as int),
        },
{
    let n = b.len();
    let args = Ghost(b@.subrange(1, n as int));
    if n < 15 {
        proof {
            assert forall|amount: u64, region: Region, medium: Medium, data: Seq<u8>|
                data.len() <= u32::MAX implies deposit_args_bytes(amount, region, medium, data)
                != args@ by {
                lemma_deposit_args_bytes(amount, region, medium, data);
            }
        }
        return None;
    }
    let amount = read_u64(b, 1);
    let region = region_from_byte(b[9]);
    let medium = medium_from_byte(b[10]);
    let len = read_u32(b, 11);
    proof {
        lemma_auto_spec_u32_to_from_le_bytes();
    }
    if region.is_none() || medium.is_none() || (n - 15) as u64 != len as u64 {
        proof {
            assert forall|amount: u64, region: Region, medium: Medium, data: Seq<u8>|
                data.len() <= u32::MAX implies deposit_args_bytes(amount, region, medium, data)
                != args@ by {
                lemma_deposit_args_bytes(amount, region, medium, data);
                let s = deposit_args_bytes(amount, region, medium, data);
                if s == args@ {
                    assert(s[8] == b@[9]);
                    assert(s[9] == b@[10]);
                    assert(s.subrange(10, 14) =~= b@.subrange(11, 15));
                }
            }
        }
        return None;
    }
    let data = vstd::slice::slice_to_vec(vstd::slice::slice_subrange(b, 15, n));
    let region = region.unwrap();
    let medium = medium.unwrap();
    proof {
        let s = deposit_args_bytes(amount, region, medium, data@);
        assert(b@.subrange(1, 9) =~= b@.subrange(1, n as int).subrange(0, 8));
        assert(args@ =~= b@.subrange(1, 9) + seq![b@[9], b@[10]] + b@.subrange(11, 15)
            + b@.subrange(15, n as int));
        assert(s =~= args@);
    }
    Some((amount, region, medium, data))
}

impl RampInstruction {
    /// Reads an operation from its bytes; `InvalidInstruction` where they are
    /// the bytes of no operation.
    pub fn decode(data: &[u8]) -> (r: Result<RampInstruction, RampError>)
        ensures
            match r {
                Ok(ins) => encodable(ins.instruction) && instruction_bytes(ins.instruction) == data@,
                Err(e) => e == RampError::InvalidInstruction && forall|ins: Instruction|
                    encodable(ins) ==> instruction_bytes(ins) != data@,
            },
    {
        proof {
            lemma_auto_spec_u128_to_from_le_bytes();
            lemma_auto_spec_u64_to_from_le_bytes();
        }
        let n = data.len();
        if n == 0 {
            proof {
                assert forall|ins: Instruction| encodable(ins) implies instruction_bytes(ins)
                    != data@ by {
                    assert(instruction_bytes(ins).len() > 0);
                }
            }
            return Err(RampError::InvalidInstruction);
        }
        let tag = data[0];
        let parsed: Option<Instruction> = if tag == 0 {
            if n == 2 && data[1] <= 1 {
                Some(Instruction::SetActive(SetActiveInstruction { is_active: data[1] == 1 }))
            } else {
                None
            }
        } else if tag == 1 {
            if n == 1 {
                Some(Instruction::RemoveAssets(RemoveAssetsInstruction {  }))
            } else {
                None
            }
        } else if tag == 2 {
            if n == 33 {
                Some(Instruction::SetOwner(SetOwnerInstruction { new_owner: read_key(data, 1) }))
            } else {
                None
            }
        } else if tag == 3 {
            if n == 25 {
                Some(
                    Instruction::AddAssets(
                        AddAssetsInstruction {
                            initial_amount: read_u64(data, 1),
                            fee_percentage: read_u128(data, 9),
                        },
                    ),
                )
            } else {
                None
            }
        } else if tag == 4 {
            if n == 50 {
                Some(
                    Instruction::InitializeProgram(
                        InitializeProgramInstruction {
                            bump: data[1],
                            vault_address: read_key(data, 2),
                            native_fee_percentage: read_u128(data, 34),
                        },
                    ),
                )
            } else {
                None
            }
        } else if tag == 5 || tag == 6 || tag == 8 {
            match read_deposit_args(data) {
                Some((amount, region, medium, bytes)) => {
                    if tag == 8 {
                        Some(
                            Instruction::OffRampDepositNative(
                                OffRampDepositNativeInstruction {
                                    amount,
                                    region,
                                    medium,
                                    data: bytes,
                                },
                            ),
                        )
                    } else {
                        let args = OffRampDepositInstruction { amount, region, medium, data: bytes };
                        if tag == 5 {
                            Some(Instruction::OffRampDepositToken22(args))
                        } else {
                            Some(Instruction::OffRampDeposit(args))
                        }
                    }
                },
                None => {
                    proof {
                        lemma_no_deposit(data@, tag);
                    }
                    return Err(RampError::InvalidInstruction);
                },
            }
        } else if tag == 7 || tag == 9 {
            if n == 9 {
                let amount = read_u64(data, 1);
                if tag == 7 {
                    Some(Instruction::OnRampWithdraw(OnRampWithdrawInstruction { amount }))
                } else {
                    Some(Instruction::OnRampWithdrawNative(OnRampWithdrawNativeInstruction { amount }))
                }
            } else {
                None
            }
        } else if tag == 10 {
            if n == 17 {
                Some(
                    Instruction::SetNativeFeePercentage(
                        SetNativeFeePercentageInstruction { fee_percentage: read_u128(data, 1) },
                    ),
                )
            } else {
                None
            }
        } else if tag == 11 {
            if n == 49 {
                Some(
                    Instruction::SetAssetFee(
                        SetAssetFeeInstruction {
                            asset_mint: read_key(data, 1),
                            fee_percentage: read_u128(data, 33),
                        },
                    ),
                )
            } else {
                None
            }
        } else {
            None
        };
        match parsed {
            Some(ins) => {
                proof {
                    let d = data@;
                    if n >= 2 {
                        assert(d =~= seq![d[0]] + d.subrange(1, n as int));
                    }
                    if n == 25 {
                        assert(d =~= seq![d[0]] + d.subrange(1, 9) + d.subrange(9, 25));
                    }
                    if n == 50 {
                        assert(d =~= seq![d[0], d[1]] + d.subrange(2, 34) + d.subrange(34, 50));
                    }
                    if n == 49 {
                        assert(d =~= seq![d[0]] + d.subrange(1, 33) + d.subrange(33, 49));
                    }
                    if n == 1 {
                        assert(d =~= seq![d[0]]);
                    }
                    if n == 2 {
                        assert(d =~= seq![d[0], d[1]]);
                    }
                }
                Ok(RampInstruction { instruction: ins })
            },
            None => {
                proof {
                    assert forall|ins: Instruction| encodable(ins) implies instruction_bytes(ins)
                        != data@ by {
                        if instruction_bytes(ins) == data@ {
                            assert(instruction_bytes(ins)[0] == tag);
                            match ins {
                                Instruction::SetActive(a) => {
                                    assert(instruction_bytes(ins)[1] == bool_byte(a.is_active));
                                },
                                _ => {},
                            }
                        }
                    }
                }
                Err(RampError::InvalidInstruction)
            },
        }
    }
}

} // verus!
