use crate::endian::{read_u64_le, u64_from_le};
use crate::error::EscrowError;
use vstd::prelude::*;
use vstd::slice::slice_subrange;

verus! {

/// Tag of the command that opens an escrow.
pub const TAG_INIT_ESCROW: u8 = 0;

/// Tag of the command that takes an escrow.
pub const TAG_TAKE_ESCROW: u8 = 1;

/// Tag of the command that reclaims an escrow.
pub const TAG_REVERT: u8 = 2;

/// Tag of the command that opens a player's asset account.
pub const TAG_INIT_GAME_ACC: u8 = 3;

/// Tag of the command that adds an asset to a player's account.
pub const TAG_ADD_ASSET: u8 = 4;

/// The terms of a new escrow.
#[derive(Clone, Copy, Debug, PartialEq, Eq, Structural)]
pub struct InitEscData {
    /// The funds that the taker is to receive.
    pub amount: u64,
    /// Minutes that have to pass after the taking before a reclaim.
    pub time: u64,
    /// The asset to be lent.
    pub asset_id: u64,
}

/// A command, with the records it expects in the order it expects them.
#[derive(Clone, Copy, Debug, PartialEq, Eq, Structural)]
pub enum InstructionType {
    /// Opens an escrow.
    ///
    /// 0. the escrow record, writable
    /// 1. the depositor's asset account
    /// 2. the depositor
    InitEscrow(InitEscData),
    /// Takes an escrow.
    ///
    /// 0. the taker, who signs
    /// 1. the escrow record, writable
    /// 2. the depositor's asset account, writable
    /// 3. the taker's asset account, writable
    TakeEscrow,
    /// Reclaims a taken escrow once its window has passed.
    ///
    /// 0. the depositor, writable
    /// 1. the escrow record, writable
    /// 2. the depositor's asset account, writable
    /// 3. the taker's asset account, writable
    Revert,
    /// Opens a player's asset account.
    ///
    /// 0. the account record, writable
    /// 1. the player who is to own it
    InitGameAcc,
    /// Adds the asset with the given id, which is not 0, to a player's owned
    /// set.
    ///
    /// 0. the account record, writable
    AddAsset(u64),
}

impl InitEscData {
    /// The terms that the first 24 bytes of a payload hold: amount, minutes
    /// and asset id, eight bytes each, least significant byte first. A shorter
    /// payload is an `InvalidInstruction`.
    pub open spec fn parse(payload: Seq<u8>) -> Result<InitEscData, EscrowError> {
        if payload.len() < 24 {
            Err(EscrowError::InvalidInstruction)
        } else {
            Ok(
                InitEscData {
                    amount: u64_from_le(payload.subrange(0, 8)),
                    time: u64_from_le(payload.subrange(8, 16)),
                    asset_id: u64_from_le(payload.subrange(16, 24)),
                },
            )
        }
    }
}

/// The asset id that the first eight bytes of a payload hold, least
/// significant byte first. A shorter payload is an `InvalidInstruction`.
pub open spec fn asset_id_parse(payload: Seq<u8>) -> Result<u64, EscrowError> {
    if payload.len() < 8 {
        Err(EscrowError::InvalidInstruction)
    } else {
        Ok(u64_from_le(payload.subrange(0, 8)))
    }
}

impl InstructionType {
    /// The command that the bytes hold: a tag byte, then the payload of that
    /// tag. Bytes after the payload are ignored. No bytes at all, an unknown
    /// tag and a payload that is too short are each an `InvalidInstruction`.
    pub open spec fn parse(input: Seq<u8>) -> Result<InstructionType, EscrowError> {
        if input.len() == 0 {
            Err(EscrowError::InvalidInstruction)
        } else {
            let payload = input.subrange(1, input.len() as int);
            if input[0] == TAG_INIT_ESCROW {
                match InitEscData::parse(payload) {
                    Ok(data) => Ok(InstructionType::InitEscrow(data)),
                    Err(why) => Err(why),
                }
            } else if input[0] == TAG_TAKE_ESCROW {
                Ok(InstructionType::TakeEscrow)
            } else if input[0] == TAG_REVERT {
                Ok(InstructionType::Revert)
            } else if input[0] == TAG_INIT_GAME_ACC {
                Ok(InstructionType::InitGameAcc)
            } else if input[0] == TAG_ADD_ASSET {
                match asset_id_parse(payload) {
                    Ok(asset_id) => Ok(InstructionType::AddAsset(asset_id)),
                    Err(why) => Err(why),
                }
            } else {
                Err(EscrowError::InvalidInstruction)
            }
        }
    }

    /// Decodes a command from the bytes of an instruction.
    pub fn unpack(input: &[u8]) -> (command: Result<InstructionType, EscrowError>)
        ensures
            command == InstructionType::parse(input@),
    {
        if input.len() == 0 {
            return Err(EscrowError::InvalidInstruction);
        }
        let mode = input[0];
        let rest = slice_subrange(input, 1, input.len());
        if mode == TAG_INIT_ESCROW {
            match InstructionType::unpack_struct(rest) {
                Ok(data) => Ok(InstructionType::InitEscrow(data)),
                Err(why) => Err(why),
            }
        } else if mode == TAG_TAKE_ESCROW {
            Ok(InstructionType::TakeEscrow)
        } else if mode == TAG_REVERT {
            Ok(InstructionType::Revert)
        } else if mode == TAG_INIT_GAME_ACC {
            Ok(InstructionType::InitGameAcc)
        } else if mode == TAG_ADD_ASSET {
            match InstructionType::unpack_asset(rest) {
                Ok(asset_id) => Ok(InstructionType::AddAsset(asset_id)),
                Err(why) => Err(why),
            }
        } else {
            Err(EscrowError::InvalidInstruction)
        }
    }

    /// Decodes the terms of a new escrow from the payload of its command.
    pub fn unpack_struct(input: &[u8]) -> (data: Result<InitEscData, EscrowError>)
        ensures
            data == InitEscData::parse(input@),
    {
        if input.len() < 24 {
            return Err(EscrowError::InvalidInstruction);
        }
        let amount = read_u64_le(input, 0);
        let time = read_u64_le(input, 8);
        let asset_id = read_u64_le(input, 16);
        Ok(InitEscData { amount, time, asset_id })
    }

    /// Decodes an asset id from the payload of its command.
    pub fn unpack_asset(input: &[u8]) -> (asset_id: Result<u64, EscrowError>)
        ensures
            asset_id == asset_id_parse(input@),
    {
        if input.len() < 8 {
            return Err(EscrowError::InvalidInstruction);
        }
        Ok(read_u64_le(input, 0))
    }
}

} // verus!
