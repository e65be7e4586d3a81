//! The instruction set and its wire format.
//!
//! An instruction buffer is one opcode byte followed by the instruction's
//! fixed-layout payload, little-endian; trailing bytes are ignored.

use vstd::prelude::*;
use vstd::bytes::spec_u64_from_le_bytes;
use crate::addr::Address;
use crate::codec::{read_address_at, read_u64_at, spec_address_from_bytes};
use crate::error::GsnError;

verus! {

/// Payload of a top-up.
#[derive(Clone, Copy, Debug, PartialEq, Eq, Structural)]
pub struct TopupAgrs {
    /// Amount credited to the consumer's pre-funded balance.
    pub amount: u64,
}

/// Payload of a transaction submission.
#[derive(Clone, Copy, Debug, PartialEq, Eq, Structural)]
pub struct SubmitArgs {
    /// Amount the external service transfers from sender to receiver.
    pub amount: u64,
    /// Consumer nonce guarding against replays.
    pub nonce: u64,
}

/// Payload of a fee-policy update.
#[derive(Clone, Copy, Debug, PartialEq, Eq, Structural)]
pub struct UpdateFeeParamsArgs {
    /// 0 selects a fixed fee, 1 a percent fee.
    pub fee_mode_type: u8,
    /// The fixed amount, or the basis points (100 = 1%).
    pub fee_value: u64,
}

/// Payload of an allow-list insertion or removal.
#[derive(Clone, Copy, Debug, PartialEq, Eq, Structural)]
pub struct TokenMintArgs {
    /// The token mint's 32-byte address.
    pub mint: Address,
}

/// Everything the relay ledger can be instructed to do.
#[derive(Clone, Copy, Debug, PartialEq, Eq, Structural)]
pub enum GsnInstruction {
    Initialize,
    Topup(TopupAgrs),
    SubmitTransaction(SubmitArgs),
    UpdateFeeParams(UpdateFeeParamsArgs),
    AddAllowedToken(TokenMintArgs),
    RemoveAllowedToken(TokenMintArgs),
    ClaimFees,
}

/// The instruction a byte buffer decodes to, if any: opcode at byte 0, then
/// the payload fields in order, little-endian; trailing bytes are ignored.
pub open spec fn spec_decode(s: Seq<u8>) -> Option<GsnInstruction> {
    if s.len() < 1 {
        None
    } else if s[0] == 0 {
        Some(GsnInstruction::Initialize)
    } else if s[0] == 1 {
        if s.len() >= 9 {
            Some(
                GsnInstruction::Topup(
                    TopupAgrs { amount: spec_u64_from_le_bytes(s.subrange(1, 9)) },
                ),
            )
        } else {
            None
        }
    } else if s[0] == 2 {
        if s.len() >= 17 {
            Some(
                GsnInstruction::SubmitTransaction(
                    SubmitArgs {
                        amount: spec_u64_from_le_bytes(s.subrange(1, 9)),
                        nonce: spec_u64_from_le_bytes(s.subrange(9, 17)),
                    },
                ),
            )
        } else {
            None
        }
    } else if s[0] == 3 {
        if s.len() >= 10 {
            Some(
                GsnInstruction::UpdateFeeParams(
                    UpdateFeeParamsArgs {
                        fee_mode_type: s[1],
                        fee_value: spec_u64_from_le_bytes(s.subrange(2, 10)),
                    },
                ),
            )
        } else {
            None
        }
    } else if s[0] == 4 {
        if s.len() >= 33 {
            Some(
                GsnInstruction::AddAllowedToken(
                    TokenMintArgs { mint: spec_address_from_bytes(s.subrange(1, 33)) },
                ),
            )
        } else {
            None
        }
    } else if s[0] == 5 {
        if s.len() >= 33 {
            Some(
                GsnInstruction::RemoveAllowedToken(
                    TokenMintArgs { mint: spec_address_from_bytes(s.subrange(1, 33)) },
                ),
            )
        } else {
            None
        }
    } else if s[0] == 6 {
        Some(GsnInstruction::ClaimFees)
    } else {
        None
    }
}

impl GsnInstruction {
    /// Decodes an instruction buffer, or reports it malformed.
    pub fn deserialize(input: &[u8]) -> (r: Result<GsnInstruction, GsnError>)
        ensures
            match spec_decode(input@) {
                Some(instruction) => r == Ok::<GsnInstruction, GsnError>(instruction),
                None => r == Err::<GsnInstruction, GsnError>(GsnError::InvalidInstructionData),
            },
    {
        if input.len() < 1 {
            return Err(GsnError::InvalidInstructionData);
        }
        let opcode = input[0];
        if opcode == 0 {
            Ok(GsnInstruction::Initialize)
        } else if opcode == 1 {
            if input.len() >= 9 {
                let amount = read_u64_at(input, 1);
                Ok(GsnInstruction::Topup(TopupAgrs { amount }))
            } else {
                Err(GsnError::InvalidInstructionData)
            }
        } else if opcode == 2 {
            if input.len() >= 17 {
                let amount = read_u64_at(input, 1);
                let nonce = read_u64_at(input, 9);
                Ok(GsnInstruction::SubmitTransaction(SubmitArgs { amount, nonce }))
            } else {
                Err(GsnError::InvalidInstructionData)
            }
        } else if opcode == 3 {
            if input.len() >= 10 {
                let fee_mode_type = input[1];
                let fee_value = read_u64_at(input, 2);
                Ok(GsnInstruction::UpdateFeeParams(UpdateFeeParamsArgs { fee_mode_type, fee_value }))
            } else {
                Err(GsnError::InvalidInstructionData)
            }
        } else if opcode == 4 {
            if input.len() >= 33 {
                let mint = read_address_at(input, 1);
                Ok(GsnInstruction::AddAllowedToken(TokenMintArgs { mint }))
            } else {
                Err(GsnError::InvalidInstructionData)
            }
        } else if opcode == 5 {
            if input.len() >= 33 {
                let mint = read_address_at(input, 1);
                Ok(GsnInstruction::RemoveAllowedToken(TokenMintArgs { mint }))
            } else {
                Err(GsnError::InvalidInstructionData)
            }
        } else if opcode == 6 {
            Ok(GsnInstruction::ClaimFees)
        } else {
            Err(GsnError::InvalidInstructionData)
        }
    }
}

} // verus!
