use vstd::prelude::*;

verus! {

/// Why a call was rejected. A rejected call leaves every record as it was.
#[derive(Clone, Copy, Debug, PartialEq, Eq, Structural)]
pub enum EscrowError {
    /// The command bytes are empty, carry an unknown tag or are too short
    /// for their payload; or the command names asset id 0. The addition of
    /// an asset fails for asset id 0 before any other check, the opening of
    /// an escrow once every other check has passed.
    InvalidInstruction,
    /// A record that has to authorize the call did not sign it.
    MissingAuthorization,
    /// A record that the call would change is not writable, or the taker's
    /// asset account belongs to another program.
    MissingPermission,
    /// A record is of the wrong kind for its position, an identity stored in
    /// a record differs from the one supplied, or the escrow to be taken
    /// belongs to another program.
    IncorrectAccountRole,
    /// A record that this program has to own belongs to another program,
    /// where no other error speaks of it.
    IncorrectProgramId,
    /// The call was given fewer records than the command needs.
    NotEnoughAccountKeys,
    /// A balance is below what the command requires of it.
    InsufficientFunds,
    /// The escrow record already holds an escrow.
    AlreadyInitialized,
    /// The escrow has been taken before.
    EscrowAlreadyTaken,
    /// The record to reclaim is no escrow, or the escrow has not been taken
    /// yet, so there is nothing to reclaim.
    InvalidState,
    /// The asset is not among the assets that the lending account owns.
    AssetNotOwnedBySender,
    /// The set that would receive the asset has no empty slot.
    CapacityExceeded,
    /// Crediting the recipient would exceed the range of a balance.
    AmountOverflow,
    /// The reclaim window has not yet passed.
    WindowNotElapsed,
    /// Bytes are too short for the record they should store, the data of a
    /// ledger record are not of the length of their record, or a flag byte is
    /// neither 0 nor 1.
    InvalidLayout,
    /// The leading byte of stored bytes names no kind that the record allows.
    InvalidKindTag,
}

} // verus!
