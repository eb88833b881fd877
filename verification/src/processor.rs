use crate::account::{
    all_wf, credited, lemma_total_lamports_update, set_lamports, store, stored, total_lamports,
    views, RecordHandle, RecordView, Runtime, RuntimeRead,
};
use crate::error::EscrowError;
use crate::identity::Identity;
use crate::instruction::{InitEscData, InstructionType};
use crate::slots::{holdings, lemma_first_slot, lemma_first_slot_is, with_added, EMPTY_SLOT};
use crate::state::{
    has_kind, lemma_escrow_canonical, lemma_escrow_round_trip, lemma_game_acc_canonical,
    lemma_game_acc_round_trip, lemma_lend_then_reclaim, lend, reclaim, Escrow, EscrowView,
    GameAcc, GameAccView, KIND_ESCROW, KIND_GAME_ACC, KIND_UNINITIALIZED,
};
use vstd::prelude::*;

verus! {

/// What a call owes its caller, given what the command makes of the records:
/// on success the records are the new ones, on failure the call reports why
/// and every record is as it was.
pub open spec fn committed(
    outcome: Result<Seq<RecordView>, EscrowError>,
    before: Seq<RecordView>,
    after: Seq<RecordView>,
    done: Result<(), EscrowError>,
) -> bool {
    match outcome {
        Ok(records) => done == Ok::<(), EscrowError>(()) && after == records,
        Err(why) => done == Err::<(), EscrowError>(why) && after == before,
    }
}

/// The escrow record that opening an escrow writes over the record `found`.
pub open spec fn opened_escrow(
    found: EscrowView,
    depositor: Seq<u8>,
    depositor_game_acc: Seq<u8>,
    data: InitEscData,
) -> EscrowView {
    EscrowView {
        acc_type: KIND_ESCROW,
        is_taken: false,
        initialiser_main_acc: depositor,
        initialiser_game_acc: depositor_game_acc,
        amount: data.amount,
        time: data.time,
        asset_id: data.asset_id,
        ..found
    }
}

/// The checks that opening an escrow makes before it reads the rent minimum,
/// in their order. See [`init_escrow_outcome`].
pub open spec fn init_escrow_admission(program_id: Seq<u8>, accounts: Seq<RecordView>) -> Result<
    (),
    EscrowError,
> {
    if accounts.len() < 1 {
        Err(EscrowError::NotEnoughAccountKeys)
    } else if !accounts[0].is_writable {
        Err(EscrowError::MissingPermission)
    } else if accounts.len() < 2 {
        Err(EscrowError::NotEnoughAccountKeys)
    } else if accounts[1].owner != program_id || accounts[0].owner != program_id {
        Err(EscrowError::IncorrectProgramId)
    } else if accounts.len() < 3 {
        Err(EscrowError::NotEnoughAccountKeys)
    } else {
        Ok(())
    }
}

/// What opening an escrow makes of the records: the escrow record, the
/// depositor's asset account, the depositor. The checks fail in this order,
/// and the first that fails decides the error:
///
/// - no escrow record: `NotEnoughAccountKeys`
/// - the escrow record is not writable: `MissingPermission`
/// - no asset account: `NotEnoughAccountKeys`
/// - this program does not own both records: `IncorrectProgramId`
/// - no depositor: `NotEnoughAccountKeys`
/// - the balance of the escrow record is below the rent minimum plus the
///   amount: `InsufficientFunds`
/// - the escrow record is an asset account, or the asset account is none:
///   `IncorrectAccountRole`
/// - the data of the escrow record are not 130 bytes, or do not decode: the
///   error of the decoding
/// - it already holds an escrow: `AlreadyInitialized`
/// - the asset id is 0, the mark of an empty slot: `InvalidInstruction`
///
/// Otherwise the escrow record holds the new escrow, not yet taken. No funds
/// move.
pub open spec fn init_escrow_outcome(
    program_id: Seq<u8>,
    accounts: Seq<RecordView>,
    data: InitEscData,
    rent_exempt_minimum: u64,
) -> Result<Seq<RecordView>, EscrowError> {
    match init_escrow_admission(program_id, accounts) {
        Err(why) => Err(why),
        Ok(()) => if accounts[0].lamports < rent_exempt_minimum + data.amount {
            Err(EscrowError::InsufficientFunds)
        } else if has_kind(accounts[0].data, KIND_GAME_ACC) {
            Err(EscrowError::IncorrectAccountRole)
        } else if !has_kind(accounts[1].data, KIND_GAME_ACC) {
            Err(EscrowError::IncorrectAccountRole)
        } else {
            match EscrowView::load(accounts[0].data) {
                Err(why) => Err(why),
                Ok(found) => if found.is_initialized() {
                    Err(EscrowError::AlreadyInitialized)
                } else if data.asset_id == EMPTY_SLOT {
                    Err(EscrowError::InvalidInstruction)
                } else {
                    Ok(
                        stored(
                            accounts,
                            0,
                            accounts[0].lamports,
                            opened_escrow(found, accounts[2].key, accounts[1].key, data).encoding(),
                        ),
                    )
                },
            }
        },
    }
}

/// The checks that opening a player's asset account makes before it reads
/// the rent minimum, in their order. See [`init_game_acc_outcome`].
pub open spec fn init_game_acc_admission(program_id: Seq<u8>, accounts: Seq<RecordView>) -> Result<
    (),
    EscrowError,
> {
    if accounts.len() < 1 {
        Err(EscrowError::NotEnoughAccountKeys)
    } else if !accounts[0].is_writable {
        Err(EscrowError::MissingPermission)
    } else if accounts[0].owner != program_id {
        Err(EscrowError::IncorrectProgramId)
    } else if !has_kind(accounts[0].data, KIND_UNINITIALIZED) {
        Err(EscrowError::IncorrectAccountRole)
    } else if accounts.len() < 2 {
        Err(EscrowError::NotEnoughAccountKeys)
    } else {
        Ok(())
    }
}

/// What opening a player's asset account makes of the records: the account
/// record, the player. The checks fail in this order, and the first that fails
/// decides the error:
///
/// - no account record: `NotEnoughAccountKeys`
/// - it is not writable: `MissingPermission`
/// - this program does not own it: `IncorrectProgramId`
/// - its kind byte is not that of an unused record: `IncorrectAccountRole`
/// - no player: `NotEnoughAccountKeys`
/// - its balance is below the rent minimum: `InsufficientFunds`
/// - its data are not 353 bytes, or do not decode: the error of the decoding
///
/// Otherwise the record is an asset account of that player, with the slots it
/// had.
pub open spec fn init_game_acc_outcome(
    program_id: Seq<u8>,
    accounts: Seq<RecordView>,
    rent_exempt_minimum: u64,
) -> Result<Seq<RecordView>, EscrowError> {
    match init_game_acc_admission(program_id, accounts) {
        Err(why) => Err(why),
        Ok(()) => if accounts[0].lamports < rent_exempt_minimum {
            Err(EscrowError::InsufficientFunds)
        } else {
            match GameAccView::load(accounts[0].data) {
                Err(why) => Err(why),
                Ok(found) => Ok(
                    stored(
                        accounts,
                        0,
                        accounts[0].lamports,
                        GameAccView {
                            acc_type: KIND_GAME_ACC,
                            userspace_owner: accounts[1].key,
                            ..found
                        }.encoding(),
                    ),
                ),
            }
        },
    }
}

/// What adding an asset makes of the records, of which the first is the
/// player's asset account. The checks fail in this order, and the first that
/// fails decides the error:
///
/// - the asset id is 0, the mark of an empty slot: `InvalidInstruction`
/// - no account record: `NotEnoughAccountKeys`
/// - it is not writable: `MissingPermission`
/// - this program does not own it: `IncorrectProgramId`
/// - it is no asset account: `IncorrectAccountRole`
/// - its data are not 353 bytes, or do not decode: the error of the decoding
/// - its owned set has no empty slot: `CapacityExceeded`
///
/// Otherwise the asset stands in the first slot of the owned set that was
/// empty. Nothing keeps an id from being added twice.
pub open spec fn add_asset_outcome(
    program_id: Seq<u8>,
    accounts: Seq<RecordView>,
    asset_id: u64,
) -> Result<Seq<RecordView>, EscrowError> {
    if asset_id == EMPTY_SLOT {
        Err(EscrowError::InvalidInstruction)
    } else if accounts.len() < 1 {
        Err(EscrowError::NotEnoughAccountKeys)
    } else if !accounts[0].is_writable {
        Err(EscrowError::MissingPermission)
    } else if accounts[0].owner != program_id {
        Err(EscrowError::IncorrectProgramId)
    } else if !has_kind(accounts[0].data, KIND_GAME_ACC) {
        Err(EscrowError::IncorrectAccountRole)
    } else {
        match GameAccView::load(accounts[0].data) {
            Err(why) => Err(why),
            Ok(found) => if !found.owned.contains(EMPTY_SLOT) {
                Err(EscrowError::CapacityExceeded)
            } else {
                Ok(
                    stored(
                        accounts,
                        0,
                        accounts[0].lamports,
                        GameAccView {
                            owned: with_added(found.owned, asset_id),
                            ..found
                        }.encoding(),
                    ),
                )
            },
        }
    }
}

/// The escrow record after `found` has been taken at the time `now` by the
/// holder of the asset account `taker_game_acc`.
pub open spec fn taken_escrow(found: EscrowView, taker_game_acc: Seq<u8>, now: i64) -> EscrowView {
    EscrowView { is_taken: true, taker_game_acc, esc_taken_time: now, ..found }
}

/// The custody move and the payment of a taking, once the three records have
/// decoded: the escrow as it was found, the taker's asset account after the
/// loan and the depositor's after it. See [`take_escrow_outcome`].
pub open spec fn take_escrow_custody(
    accounts: Seq<RecordView>,
    escrow: EscrowView,
    taker: GameAccView,
    initialiser: GameAccView,
) -> Result<(EscrowView, GameAccView, GameAccView), EscrowError> {
    if taker.userspace_owner != accounts[0].key {
        Err(EscrowError::IncorrectAccountRole)
    } else {
        match lend(taker, initialiser, escrow.asset_id) {
            Err(why) => Err(why),
            Ok((lent, borrowed)) => if accounts[0].lamports + escrow.amount > u64::MAX {
                Err(EscrowError::AmountOverflow)
            } else if accounts[1].lamports < escrow.amount {
                Err(EscrowError::InsufficientFunds)
            } else {
                Ok((escrow, lent, borrowed))
            },
        }
    }
}

/// Everything that a taking decides before it reads the clock: the checks in
/// their order, and on success the escrow as it was found, the taker's asset
/// account after the loan and the depositor's after it. See
/// [`take_escrow_outcome`].
pub open spec fn take_escrow_plan(program_id: Seq<u8>, accounts: Seq<RecordView>) -> Result<
    (EscrowView, GameAccView, GameAccView),
    EscrowError,
> {
    if accounts.len() < 1 {
        Err(EscrowError::NotEnoughAccountKeys)
    } else if !accounts[0].is_signer {
        Err(EscrowError::MissingAuthorization)
    } else if accounts.len() < 2 {
        Err(EscrowError::NotEnoughAccountKeys)
    } else if accounts[1].owner != program_id || !has_kind(accounts[1].data, KIND_ESCROW) {
        Err(EscrowError::IncorrectAccountRole)
    } else {
        match EscrowView::load(accounts[1].data) {
            Err(why) => Err(why),
            Ok(escrow) => if escrow.is_taken {
                Err(EscrowError::EscrowAlreadyTaken)
            } else if accounts.len() < 4 {
                Err(EscrowError::NotEnoughAccountKeys)
            } else if accounts[3].owner != program_id || !accounts[1].is_writable
                || !accounts[2].is_writable || !accounts[3].is_writable {
                Err(EscrowError::MissingPermission)
            } else if escrow.initialiser_game_acc != accounts[2].key {
                Err(EscrowError::IncorrectAccountRole)
            } else if !has_kind(accounts[3].data, KIND_GAME_ACC) {
                Err(EscrowError::IncorrectAccountRole)
            } else {
                match GameAccView::load(accounts[3].data) {
                    Err(why) => Err(why),
                    Ok(taker) => match GameAccView::load(accounts[2].data) {
                        Err(why) => Err(why),
                        Ok(initialiser) => take_escrow_custody(
                            accounts,
                            escrow,
                            taker,
                            initialiser,
                        ),
                    },
                }
            },
        }
    }
}

/// What taking an escrow at the time `now` makes of the records: the taker,
/// the escrow record, the depositor's asset account, the taker's asset
/// account. The checks fail in this order, and the first that fails decides
/// the error:
///
/// - no taker: `NotEnoughAccountKeys`
/// - the taker has not signed: `MissingAuthorization`
/// - no escrow record: `NotEnoughAccountKeys`
/// - this program does not own the escrow record, or the record is not
///   tagged as an escrow: `IncorrectAccountRole`
/// - its data are not 130 bytes, or do not decode: the error of the decoding
/// - it has been taken: `EscrowAlreadyTaken`
/// - fewer than four records: `NotEnoughAccountKeys`
/// - this program does not own the taker's asset account, or one of the last
///   three records is not writable: `MissingPermission`
/// - the escrow names another asset account than the depositor's one given:
///   `IncorrectAccountRole`
/// - the taker's asset account is not tagged as one: `IncorrectAccountRole`
/// - the data of the taker's asset account, then of the depositor's, are not
///   353 bytes or do not decode: the error of the decoding
/// - the taker's asset account belongs to another player:
///   `IncorrectAccountRole`
/// - the loan of the asset from the taker's account to the depositor's fails:
///   the error of [`lend`]
/// - the taker's balance cannot take the amount: `AmountOverflow`
/// - the escrow's balance does not cover the amount: `InsufficientFunds`
///
/// Otherwise the asset has moved from the taker's owned set to the
/// depositor's rented set, the amount has moved from the escrow's balance to
/// the taker's, and the escrow is marked as taken by that asset account at
/// that time.
pub open spec fn take_escrow_outcome(
    program_id: Seq<u8>,
    accounts: Seq<RecordView>,
    now: i64,
) -> Result<Seq<RecordView>, EscrowError> {
    match take_escrow_plan(program_id, accounts) {
        Err(why) => Err(why),
        Ok((escrow, lent, borrowed)) => {
            let paid = credited(accounts, 0, (accounts[0].lamports + escrow.amount) as u64);
            let marked = stored(
                paid,
                1,
                (accounts[1].lamports - escrow.amount) as u64,
                taken_escrow(escrow, accounts[3].key, now).encoding(),
            );
            let received = stored(marked, 2, accounts[2].lamports, borrowed.encoding());
            Ok(stored(received, 3, accounts[3].lamports, lent.encoding()))
        },
    }
}

/// Whether at the time `now` more than `minutes` minutes have passed since
/// `taken_at`. The minute in which the window ends does not count.
pub open spec fn window_elapsed(taken_at: i64, minutes: u64, now: i64) -> bool {
    now - taken_at > minutes * 60
}

/// The escrow that a reclaim is about, once the last three records have
/// proved writable and the identities to be those that the escrow names.
pub open spec fn revert_identities(
    program_id: Seq<u8>,
    accounts: Seq<RecordView>,
    escrow: EscrowView,
) -> Result<EscrowView, EscrowError> {
    if accounts.len() < 4 {
        Err(EscrowError::NotEnoughAccountKeys)
    } else if !accounts[1].is_writable || !accounts[2].is_writable || !accounts[3].is_writable {
        Err(EscrowError::MissingPermission)
    } else if accounts[1].owner != program_id {
        Err(EscrowError::IncorrectProgramId)
    } else if escrow.initialiser_game_acc != accounts[2].key || escrow.taker_game_acc
        != accounts[3].key || escrow.initialiser_main_acc != accounts[0].key {
        Err(EscrowError::IncorrectAccountRole)
    } else {
        Ok(escrow)
    }
}

/// The checks that a reclaim makes before it reads the clock, in their order,
/// and on success the escrow that it found. See [`revert_outcome`].
pub open spec fn revert_admission(program_id: Seq<u8>, accounts: Seq<RecordView>) -> Result<
    EscrowView,
    EscrowError,
> {
    if accounts.len() < 1 {
        Err(EscrowError::NotEnoughAccountKeys)
    } else if !accounts[0].is_writable {
        Err(EscrowError::MissingPermission)
    } else if accounts.len() < 2 {
        Err(EscrowError::NotEnoughAccountKeys)
    } else if !has_kind(accounts[1].data, KIND_ESCROW) {
        Err(EscrowError::InvalidState)
    } else {
        match EscrowView::load(accounts[1].data) {
            Err(why) => Err(why),
            Ok(escrow) => if !escrow.is_taken {
                Err(EscrowError::InvalidState)
            } else {
                revert_identities(program_id, accounts, escrow)
            },
        }
    }
}

/// What reclaiming an escrow at the time `now` makes of the records: the
/// depositor, the escrow record, the depositor's asset account, the taker's
/// asset account. The checks fail in this order, and the first that fails
/// decides the error:
///
/// - no depositor: `NotEnoughAccountKeys`
/// - the depositor is not writable: `MissingPermission`
/// - no escrow record: `NotEnoughAccountKeys`
/// - the escrow record is not tagged as an escrow: `InvalidState`
/// - its data are not 130 bytes, or do not decode: the error of the decoding
/// - it has not been taken: `InvalidState`
/// - fewer than four records: `NotEnoughAccountKeys`
/// - one of the last three records is not writable: `MissingPermission`
/// - this program does not own the escrow record: `IncorrectProgramId`
/// - the escrow names another depositor, depositor's asset account or taker's
///   asset account than the ones given: `IncorrectAccountRole`
/// - the window has not passed: `WindowNotElapsed`
/// - the data of the taker's asset account, then of the depositor's, are not
///   353 bytes or do not decode: the error of the decoding
/// - the depositor's balance cannot take the escrow's: `AmountOverflow`
///
/// Otherwise the loan is undone: the asset has left the depositor's rented
/// set, if it was there, and entered the taker's owned set, if that had an
/// empty slot. The whole balance of the escrow has moved to the depositor, and
/// the escrow record is retired, with no balance and no bytes.
pub open spec fn revert_outcome(
    program_id: Seq<u8>,
    accounts: Seq<RecordView>,
    now: i64,
) -> Result<Seq<RecordView>, EscrowError> {
    match revert_admission(program_id, accounts) {
        Err(why) => Err(why),
        Ok(escrow) => if !window_elapsed(escrow.esc_taken_time, escrow.time, now) {
            Err(EscrowError::WindowNotElapsed)
        } else {
            match GameAccView::load(accounts[3].data) {
                Err(why) => Err(why),
                Ok(taker) => match GameAccView::load(accounts[2].data) {
                    Err(why) => Err(why),
                    Ok(initialiser) => if accounts[0].lamports + accounts[1].lamports > u64::MAX {
                        Err(EscrowError::AmountOverflow)
                    } else {
                        let (returned, restored) = reclaim(initialiser, taker, escrow.asset_id);
                        let paid = credited(
                            accounts,
                            0,
                            (accounts[0].lamports + accounts[1].lamports) as u64,
                        );
                        let retired = stored(paid, 1, 0, Seq::empty());
                        let given_back = stored(
                            retired,
                            2,
                            accounts[2].lamports,
                            returned.encoding(),
                        );
                        Ok(stored(given_back, 3, accounts[3].lamports, restored.encoding()))
                    },
                },
            }
        },
    }
}

/// What a call has to learn from the runtime, or the error with which it
/// fails before it would ask: no command in the bytes, or a check of the
/// command that comes before its reading. An opening asks for the rent
/// minimum of the first record, a taking and a reclaim for the time, the
/// addition of an asset for nothing.
pub open spec fn runtime_read(
    program_id: Seq<u8>,
    accounts: Seq<RecordView>,
    instruction_data: Seq<u8>,
) -> Result<RuntimeRead, EscrowError> {
    match InstructionType::parse(instruction_data) {
        Err(why) => Err(why),
        Ok(InstructionType::InitEscrow(_)) => match init_escrow_admission(program_id, accounts) {
            Err(why) => Err(why),
            Ok(()) => Ok(RuntimeRead::RentMinimum(accounts[0].data.len() as usize)),
        },
        Ok(InstructionType::InitGameAcc) => match init_game_acc_admission(program_id, accounts) {
            Err(why) => Err(why),
            Ok(()) => Ok(RuntimeRead::RentMinimum(accounts[0].data.len() as usize)),
        },
        Ok(InstructionType::TakeEscrow) => match take_escrow_plan(program_id, accounts) {
            Err(why) => Err(why),
            Ok(_) => Ok(RuntimeRead::Clock),
        },
        Ok(InstructionType::Revert) => match revert_admission(program_id, accounts) {
            Err(why) => Err(why),
            Ok(_) => Ok(RuntimeRead::Clock),
        },
        Ok(InstructionType::AddAsset(_)) => Ok(RuntimeRead::Nothing),
    }
}

/// What a call makes of the records: what the command that the instruction
/// bytes hold makes of them, or `InvalidInstruction` where they hold none.
pub open spec fn instruction_outcome(
    program_id: Seq<u8>,
    accounts: Seq<RecordView>,
    instruction_data: Seq<u8>,
    runtime: Runtime,
) -> Result<Seq<RecordView>, EscrowError> {
    match InstructionType::parse(instruction_data) {
        Err(why) => Err(why),
        Ok(InstructionType::InitEscrow(data)) => init_escrow_outcome(
            program_id,
            accounts,
            data,
            runtime.rent_exempt_minimum,
        ),
        Ok(InstructionType::TakeEscrow) => take_escrow_outcome(
            program_id,
            accounts,
            runtime.unix_timestamp,
        ),
        Ok(InstructionType::Revert) => revert_outcome(program_id, accounts, runtime.unix_timestamp),
        Ok(InstructionType::InitGameAcc) => init_game_acc_outcome(
            program_id,
            accounts,
            runtime.rent_exempt_minimum,
        ),
        Ok(InstructionType::AddAsset(asset_id)) => add_asset_outcome(
            program_id,
            accounts,
            asset_id,
        ),
    }
}

/// An escrow can be opened once, and never for asset id 0. After a successful
/// opening the escrow record decodes to the new escrow, whose asset id is not
/// 0; every balance and every other record is as it was; and whatever the
/// terms and the rent minimum, a second opening on the same records fails:
/// with `InsufficientFunds` where the balance does not cover the new terms,
/// else with `AlreadyInitialized`.
pub proof fn lemma_init_escrow_once(
    program_id: Seq<u8>,
    accounts: Seq<RecordView>,
    data: InitEscData,
    rent_exempt_minimum: u64,
    again: InitEscData,
    later_minimum: u64,
)
    requires
        all_wf(accounts),
        init_escrow_outcome(program_id, accounts, data, rent_exempt_minimum) is Ok,
    ensures
        ({
            let after = init_escrow_outcome(program_id, accounts, data, rent_exempt_minimum)->Ok_0;
            let found = EscrowView::load(accounts[0].data)->Ok_0;
            let opened = opened_escrow(found, accounts[2].key, accounts[1].key, data);
            &&& after.len() == accounts.len()
            &&& forall|i: int| 1 <= i < accounts.len() ==> after[i] == accounts[i]
            &&& after[0].lamports == accounts[0].lamports
            &&& EscrowView::load(after[0].data) == Ok::<EscrowView, EscrowError>(opened)
            &&& opened.asset_id != EMPTY_SLOT
            &&& init_escrow_outcome(program_id, after, again, later_minimum) == Err::<
                Seq<RecordView>,
                EscrowError,
            >(
                if after[0].lamports < later_minimum + again.amount {
                    EscrowError::InsufficientFunds
                } else {
                    EscrowError::AlreadyInitialized
                },
            )
        }),
{
    let found = EscrowView::load(accounts[0].data)->Ok_0;
    let opened = opened_escrow(found, accounts[2].key, accounts[1].key, data);
    lemma_escrow_canonical(accounts[0].data, found);
    assert(accounts[1].wf() && accounts[2].wf());
    lemma_escrow_round_trip(opened);
}

/// An escrow can be taken once. After a successful taking the escrow record
/// decodes to the escrow it held, now marked as taken at that time by the
/// taker's asset account and otherwise unchanged; the amount has moved from
/// the escrow's balance to the taker's; and a second taking on the same
/// records fails with `EscrowAlreadyTaken`, whatever the time.
pub proof fn lemma_take_escrow_once(
    program_id: Seq<u8>,
    accounts: Seq<RecordView>,
    now: i64,
    later: i64,
)
    requires
        all_wf(accounts),
        take_escrow_outcome(program_id, accounts, now) is Ok,
    ensures
        ({
            let after = take_escrow_outcome(program_id, accounts, now)->Ok_0;
            let found = EscrowView::load(accounts[1].data)->Ok_0;
            &&& after.len() == accounts.len()
            &&& !found.is_taken
            &&& EscrowView::load(after[1].data) == Ok::<EscrowView, EscrowError>(
                taken_escrow(found, accounts[3].key, now),
            )
            &&& after[0].lamports == accounts[0].lamports + found.amount
            &&& after[1].lamports == accounts[1].lamports - found.amount
            &&& after[2].lamports == accounts[2].lamports
            &&& after[3].lamports == accounts[3].lamports
            &&& take_escrow_outcome(program_id, after, later) == Err::<
                Seq<RecordView>,
                EscrowError,
            >(EscrowError::EscrowAlreadyTaken)
        }),
{
    let found = EscrowView::load(accounts[1].data)->Ok_0;
    let taken = taken_escrow(found, accounts[3].key, now);
    lemma_escrow_canonical(accounts[1].data, found);
    assert(accounts[3].wf());
    lemma_escrow_round_trip(taken);
    assert(taken.encoding()[0] == KIND_ESCROW);
}

/// A reclaim succeeds only on an escrow that has been taken and whose window
/// has passed, and it moves the whole balance of the escrow to the depositor.
pub proof fn lemma_revert_only_after_window(
    program_id: Seq<u8>,
    accounts: Seq<RecordView>,
    now: i64,
)
    requires
        revert_outcome(program_id, accounts, now) is Ok,
    ensures
        ({
            let after = revert_outcome(program_id, accounts, now)->Ok_0;
            let found = EscrowView::load(accounts[1].data)->Ok_0;
            &&& EscrowView::load(accounts[1].data) is Ok
            &&& found.is_taken
            &&& now - found.esc_taken_time > found.time * 60
            &&& after.len() == accounts.len()
            &&& after[0].lamports == accounts[0].lamports + accounts[1].lamports
            &&& after[1].lamports == 0
            &&& after[1].data.len() == 0
        }),
{
}

/// A taken escrow can be reclaimed exactly when its window has passed, and
/// the reclaim undoes the loan. Take the records that a successful taking at
/// the time `now` has left, put the depositor that the escrow names in front
/// of them, writable and with room in its balance for the escrow's, and
/// reclaim at the time `later`. Where no more than the window has passed the
/// reclaim fails with `WindowNotElapsed`. Otherwise it succeeds: the depositor
/// receives the whole balance of the escrow, and each of the two asset
/// accounts has in both of its sets the holdings that it had before the
/// taking. No asset is lost and none is there twice.
pub proof fn lemma_revert_after_take(
    program_id: Seq<u8>,
    accounts: Seq<RecordView>,
    now: i64,
    depositor: RecordView,
    later: i64,
)
    requires
        all_wf(accounts),
        take_escrow_outcome(program_id, accounts, now) is Ok,
        depositor.is_writable,
        depositor.key == EscrowView::load(accounts[1].data)->Ok_0.initialiser_main_acc,
        depositor.lamports + take_escrow_outcome(program_id, accounts, now)->Ok_0[1].lamports
            <= u64::MAX,
    ensures
        ({
            let taken = take_escrow_outcome(program_id, accounts, now)->Ok_0;
            let escrow = EscrowView::load(accounts[1].data)->Ok_0;
            let taker = GameAccView::load(accounts[3].data)->Ok_0;
            let initialiser = GameAccView::load(accounts[2].data)->Ok_0;
            let records = seq![depositor, taken[1], taken[2], taken[3]];
            let outcome = revert_outcome(program_id, records, later);
            &&& later - now <= escrow.time * 60 ==> outcome == Err::<Seq<RecordView>, EscrowError>(
                EscrowError::WindowNotElapsed,
            )
            &&& later - now > escrow.time * 60 ==> {
                &&& outcome is Ok
                &&& outcome->Ok_0[0].lamports == depositor.lamports + taken[1].lamports
                &&& outcome->Ok_0[1].lamports == 0
                &&& outcome->Ok_0[1].data.len() == 0
                &&& GameAccView::load(outcome->Ok_0[2].data) is Ok
                &&& GameAccView::load(outcome->Ok_0[3].data) is Ok
                &&& ({
                    let returned = GameAccView::load(outcome->Ok_0[2].data)->Ok_0;
                    let restored = GameAccView::load(outcome->Ok_0[3].data)->Ok_0;
                    &&& holdings(restored.owned) == holdings(taker.owned)
                    &&& restored.rented == taker.rented
                    &&& returned.owned == initialiser.owned
                    &&& holdings(returned.rented) == holdings(initialiser.rented)
                    &&& restored.userspace_owner == taker.userspace_owner
                    &&& returned.userspace_owner == initialiser.userspace_owner
                })
            }
        }),
{
    let taken = take_escrow_outcome(program_id, accounts, now)->Ok_0;
    let escrow = EscrowView::load(accounts[1].data)->Ok_0;
    let taker = GameAccView::load(accounts[3].data)->Ok_0;
    let initialiser = GameAccView::load(accounts[2].data)->Ok_0;
    let (lent, borrowed) = lend(taker, initialiser, escrow.asset_id)->Ok_0;
    let (returned, restored) = reclaim(borrowed, lent, escrow.asset_id);
    let stamped = taken_escrow(escrow, accounts[3].key, now);
    lemma_escrow_canonical(accounts[1].data, escrow);
    lemma_game_acc_canonical(accounts[3].data, taker);
    lemma_game_acc_canonical(accounts[2].data, initialiser);
    assert(accounts[3].wf());
    lemma_first_slot(taker.owned, escrow.asset_id);
    lemma_first_slot(initialiser.rented, EMPTY_SLOT);
    lemma_escrow_round_trip(stamped);
    lemma_game_acc_round_trip(borrowed);
    lemma_game_acc_round_trip(lent);
    assert(stamped.encoding()[0] == KIND_ESCROW);
    let records = seq![depositor, taken[1], taken[2], taken[3]];
    assert(has_kind(records[1].data, KIND_ESCROW));
    if later - now > escrow.time * 60 {
        lemma_first_slot(borrowed.rented, escrow.asset_id);
        lemma_first_slot(lent.owned, EMPTY_SLOT);
        lemma_game_acc_round_trip(returned);
        lemma_game_acc_round_trip(restored);
        lemma_lend_then_reclaim(taker, initialiser, escrow.asset_id);
    }
}

/// A call that fails before it would ask anything of the runtime fails in the
/// same way whatever the runtime reports.
pub proof fn lemma_runtime_read_first(
    program_id: Seq<u8>,
    accounts: Seq<RecordView>,
    instruction_data: Seq<u8>,
    runtime: Runtime,
)
    ensures
        runtime_read(program_id, accounts, instruction_data) matches Err(why)
            ==> instruction_outcome(program_id, accounts, instruction_data, runtime) == Err::<
            Seq<RecordView>,
            EscrowError,
        >(why),
{
}

/// A call depends on the runtime in nothing but what it asks of it: two
/// runtimes that agree on the rent minimum where the call asks for that, and
/// on the time where it asks for the time, give the same outcome.
pub proof fn lemma_runtime_read_as_needed(
    program_id: Seq<u8>,
    accounts: Seq<RecordView>,
    instruction_data: Seq<u8>,
    one: Runtime,
    other: Runtime,
)
    requires
        runtime_read(program_id, accounts, instruction_data) matches Ok(read) ==> {
            &&& read is RentMinimum ==> one.rent_exempt_minimum == other.rent_exempt_minimum
            &&& read is Clock ==> one.unix_timestamp == other.unix_timestamp
        },
    ensures
        instruction_outcome(program_id, accounts, instruction_data, one) == instruction_outcome(
            program_id,
            accounts,
            instruction_data,
            other,
        ),
{
}

/// No call makes or loses funds: after a successful call the balances of the
/// records add up to what they added up to before.
pub proof fn lemma_funds_conserved(
    program_id: Seq<u8>,
    accounts: Seq<RecordView>,
    instruction_data: Seq<u8>,
    runtime: Runtime,
)
    requires
        instruction_outcome(program_id, accounts, instruction_data, runtime) is Ok,
    ensures
        total_lamports(instruction_outcome(program_id, accounts, instruction_data, runtime)->Ok_0)
            == total_lamports(accounts),
{
    let after = instruction_outcome(program_id, accounts, instruction_data, runtime)->Ok_0;
    match InstructionType::parse(instruction_data)->Ok_0 {
        InstructionType::InitEscrow(_) | InstructionType::InitGameAcc | InstructionType::AddAsset(
            _,
        ) => {
            lemma_total_lamports_update(accounts, 0, after[0]);
            assert(after =~= accounts.update(0, after[0]));
        },
        InstructionType::TakeEscrow | InstructionType::Revert => {
            let first = accounts.update(0, after[0]);
            let second = first.update(1, after[1]);
            let third = second.update(2, after[2]);
            lemma_total_lamports_update(accounts, 0, after[0]);
            lemma_total_lamports_update(first, 1, after[1]);
            lemma_total_lamports_update(second, 2, after[2]);
            lemma_total_lamports_update(third, 3, after[3]);
            assert(after =~= third.update(3, after[3]));
        },
    }
}

/// The records after the first `count` of `ids` have been added, one call
/// after the other, to the asset account that is the first record; the first
/// error where a call fails.
pub open spec fn assets_added(
    program_id: Seq<u8>,
    accounts: Seq<RecordView>,
    ids: Seq<u64>,
    count: nat,
) -> Result<Seq<RecordView>, EscrowError>
    decreases count,
{
    if count == 0 {
        Ok(accounts)
    } else {
        match assets_added(program_id, accounts, ids, (count - 1) as nat) {
            Err(why) => Err(why),
            Ok(so_far) => add_asset_outcome(program_id, so_far, ids[count - 1]),
        }
    }
}

/// After a successful addition the account decodes to what it held, with the
/// asset in the first slot of its owned set that was empty; nothing else in
/// the records has changed.
pub proof fn lemma_add_asset_effect(program_id: Seq<u8>, accounts: Seq<RecordView>, asset_id: u64)
    requires
        add_asset_outcome(program_id, accounts, asset_id) is Ok,
    ensures
        ({
            let after = add_asset_outcome(program_id, accounts, asset_id)->Ok_0;
            let found = GameAccView::load(accounts[0].data)->Ok_0;
            &&& after.len() == accounts.len()
            &&& forall|i: int| 1 <= i < accounts.len() ==> after[i] == accounts[i]
            &&& after[0] == RecordView { data: after[0].data, ..accounts[0] }
            &&& found.owned.contains(EMPTY_SLOT)
            &&& GameAccView::load(after[0].data) == Ok::<GameAccView, EscrowError>(
                GameAccView { owned: with_added(found.owned, asset_id), ..found },
            )
            &&& has_kind(after[0].data, KIND_GAME_ACC)
        }),
{
    let found = GameAccView::load(accounts[0].data)->Ok_0;
    let grown = GameAccView { owned: with_added(found.owned, asset_id), ..found };
    lemma_game_acc_canonical(accounts[0].data, found);
    lemma_first_slot(found.owned, EMPTY_SLOT);
    lemma_game_acc_round_trip(grown);
    assert(grown.encoding()[0] == KIND_GAME_ACC);
}

/// An owned set takes 20 assets and no more. On a writable asset account of
/// this program whose owned set is empty, the additions of 20 assets succeed
/// one after the other, whatever the ids, as long as none is 0. Afterwards the
/// owned set holds these assets, slot by slot in the order in which they came,
/// and the addition of one more fails with `CapacityExceeded`.
pub proof fn lemma_add_asset_capacity(
    program_id: Seq<u8>,
    accounts: Seq<RecordView>,
    ids: Seq<u64>,
    one_more: u64,
)
    requires
        accounts.len() >= 1,
        accounts[0].is_writable,
        accounts[0].owner == program_id,
        has_kind(accounts[0].data, KIND_GAME_ACC),
        GameAccView::load(accounts[0].data) is Ok,
        GameAccView::load(accounts[0].data)->Ok_0.owned == Seq::new(20, |i: int| EMPTY_SLOT),
        ids.len() == 20,
        forall|i: int| 0 <= i < 20 ==> ids[i] != EMPTY_SLOT,
        one_more != EMPTY_SLOT,
    ensures
        assets_added(program_id, accounts, ids, 20) is Ok,
        ({
            let full = assets_added(program_id, accounts, ids, 20)->Ok_0;
            let found = GameAccView::load(accounts[0].data)->Ok_0;
            &&& GameAccView::load(full[0].data) == Ok::<GameAccView, EscrowError>(
                GameAccView { owned: ids, ..found },
            )
            &&& add_asset_outcome(program_id, full, one_more) == Err::<
                Seq<RecordView>,
                EscrowError,
            >(EscrowError::CapacityExceeded)
        }),
{
    lemma_assets_added_prefix(program_id, accounts, ids, 20);
    let full = assets_added(program_id, accounts, ids, 20)->Ok_0;
    let owned = GameAccView::load(full[0].data)->Ok_0.owned;
    assert(owned =~= ids);
    assert(!ids.contains(EMPTY_SLOT));
}

/// The induction behind [`lemma_add_asset_capacity`]: after `count` additions
/// the first `count` slots hold the first `count` assets and the others are
/// empty.
pub proof fn lemma_assets_added_prefix(
    program_id: Seq<u8>,
    accounts: Seq<RecordView>,
    ids: Seq<u64>,
    count: nat,
)
    requires
        accounts.len() >= 1,
        accounts[0].is_writable,
        accounts[0].owner == program_id,
        has_kind(accounts[0].data, KIND_GAME_ACC),
        GameAccView::load(accounts[0].data) is Ok,
        GameAccView::load(accounts[0].data)->Ok_0.owned == Seq::new(20, |i: int| EMPTY_SLOT),
        ids.len() == 20,
        forall|i: int| 0 <= i < 20 ==> ids[i] != EMPTY_SLOT,
        count <= 20,
    ensures
        assets_added(program_id, accounts, ids, count) is Ok,
        ({
            let after = assets_added(program_id, accounts, ids, count)->Ok_0;
            let found = GameAccView::load(accounts[0].data)->Ok_0;
            &&& after.len() == accounts.len()
            &&& after[0] == RecordView { data: after[0].data, ..accounts[0] }
            &&& has_kind(after[0].data, KIND_GAME_ACC)
            &&& GameAccView::load(after[0].data) == Ok::<GameAccView, EscrowError>(
                GameAccView {
                    owned: Seq::new(
                        20,
                        |i: int|
                            if i < count {
                                ids[i]
                            } else {
                                EMPTY_SLOT
                            },
                    ),
                    ..found
                },
            )
        }),
    decreases count,
{
    let found = GameAccView::load(accounts[0].data)->Ok_0;
    if count == 0 {
        assert(found.owned =~= Seq::new(
            20,
            |i: int|
                if i < 0 {
                    ids[i]
                } else {
                    EMPTY_SLOT
                },
        ));
    } else {
        let before = (count - 1) as nat;
        lemma_assets_added_prefix(program_id, accounts, ids, before);
        let so_far = assets_added(program_id, accounts, ids, before)->Ok_0;
        let held = GameAccView::load(so_far[0].data)->Ok_0;
        assert(held.owned[before as int] == EMPTY_SLOT);
        lemma_first_slot_is(held.owned, EMPTY_SLOT, before as int);
        assert(held.owned.contains(EMPTY_SLOT));
        lemma_add_asset_effect(program_id, so_far, ids[before as int]);
        assert(with_added(held.owned, ids[before as int]) =~= Seq::new(
            20,
            |i: int|
                if i < count {
                    ids[i]
                } else {
                    EMPTY_SLOT
                },
        ));
    }
}

/// Whether the stored bytes start with the kind byte `kind`.
pub fn starts_with_kind(data: &Vec<u8>, kind: u8) -> (yes: bool)
    ensures
        yes == has_kind(data@, kind),
{
    data.len() > 0 && data[0] == kind
}

/// The entry point of the program: decodes a command and applies it to the
/// records of the call.
pub struct Processor;

impl Processor {
    /// Applies the command that `instruction_data` holds to the records of the
    /// call. On failure every record is as it was.
    pub fn process_instruction(
        program_id: &Identity,
        accounts: &mut Vec<RecordHandle>,
        instruction_data: &[u8],
        runtime: &Runtime,
    ) -> (done: Result<(), EscrowError>)
        ensures
            committed(
                instruction_outcome(
                    program_id@,
                    views(old(accounts)@),
                    instruction_data@,
                    *runtime,
                ),
                views(old(accounts)@),
                views(final(accounts)@),
                done,
            ),
    {
        let instruction = match InstructionType::unpack(instruction_data) {
            Ok(instruction) => instruction,
            Err(why) => {
                return Err(why);
            },
        };
        match instruction {
            InstructionType::InitEscrow(init_esc_data) => Self::process_init_escrow(
                program_id,
                accounts,
                init_esc_data,
                runtime.rent_exempt_minimum,
            ),
            InstructionType::TakeEscrow => Self::process_take_escrow(
                program_id,
                accounts,
                runtime.unix_timestamp,
            ),
            InstructionType::Revert => Self::revert(program_id, accounts, runtime.unix_timestamp),
            InstructionType::InitGameAcc => Self::process_init_game_acc(
                program_id,
                accounts,
                runtime.rent_exempt_minimum,
            ),
            InstructionType::AddAsset(asset_id) => Self::add_asset(program_id, accounts, asset_id),
        }
    }

    /// Says what the call has to learn from the runtime before
    /// [`Processor::process_instruction`] can decide it, or fails as the call
    /// would fail before it asked. Changes nothing.
    pub fn runtime_read(
        program_id: &Identity,
        accounts: &Vec<RecordHandle>,
        instruction_data: &[u8],
    ) -> (read: Result<RuntimeRead, EscrowError>)
        ensures
            read == runtime_read(program_id@, views(accounts@), instruction_data@),
    {
        let instruction = match InstructionType::unpack(instruction_data) {
            Ok(instruction) => instruction,
            Err(why) => {
                return Err(why);
            },
        };
        match instruction {
            InstructionType::InitEscrow(_) => {
                match Self::check_init_escrow(program_id, accounts) {
                    Ok(()) => Ok(RuntimeRead::RentMinimum(accounts[0].data.len())),
                    Err(why) => Err(why),
                }
            },
            InstructionType::InitGameAcc => {
                match Self::check_init_game_acc(program_id, accounts) {
                    Ok(()) => Ok(RuntimeRead::RentMinimum(accounts[0].data.len())),
                    Err(why) => Err(why),
                }
            },
            InstructionType::TakeEscrow => {
                match Self::plan_take_escrow(program_id, accounts) {
                    Ok(_) => Ok(RuntimeRead::Clock),
                    Err(why) => Err(why),
                }
            },
            InstructionType::Revert => {
                match Self::check_revert(program_id, accounts) {
                    Ok(_) => Ok(RuntimeRead::Clock),
                    Err(why) => Err(why),
                }
            },
            InstructionType::AddAsset(_) => Ok(RuntimeRead::Nothing),
        }
    }

    /// Makes the checks of a taking and works out what it will store, all but
    /// the time. See [`take_escrow_plan`]. Changes nothing.
    pub fn plan_take_escrow(program_id: &Identity, accounts: &Vec<RecordHandle>) -> (plan: Result<
        (Escrow, GameAcc, GameAcc),
        EscrowError,
    >)
        ensures
            match plan {
                Ok((escrow, lent, borrowed)) => take_escrow_plan(program_id@, views(accounts@))
                    == Ok::<(EscrowView, GameAccView, GameAccView), EscrowError>(
                    (escrow@, lent@, borrowed@),
                ),
                Err(why) => take_escrow_plan(program_id@, views(accounts@)) == Err::<
                    (EscrowView, GameAccView, GameAccView),
                    EscrowError,
                >(why),
            },
    {
        if accounts.len() < 1 {
            return Err(EscrowError::NotEnoughAccountKeys);
        }
        if !accounts[0].is_signer {
            return Err(EscrowError::MissingAuthorization);
        }
        if accounts.len() < 2 {
            return Err(EscrowError::NotEnoughAccountKeys);
        }
        if accounts[1].owner != *program_id || !starts_with_kind(&accounts[1].data, KIND_ESCROW) {
            return Err(EscrowError::IncorrectAccountRole);
        }
        let escrow_info = match Escrow::unpack_unchecked(accounts[1].data.as_slice()) {
            Ok(found) => found,
            Err(why) => {
                return Err(why);
            },
        };
        if escrow_info.is_taken {
            return Err(EscrowError::EscrowAlreadyTaken);
        }
        if accounts.len() < 4 {
            return Err(EscrowError::NotEnoughAccountKeys);
        }
        if accounts[3].owner != *program_id || !accounts[1].is_writable
            || !accounts[2].is_writable || !accounts[3].is_writable {
            return Err(EscrowError::MissingPermission);
        }
        if escrow_info.initialiser_game_acc != accounts[2].key {
            return Err(EscrowError::IncorrectAccountRole);
        }
        if !starts_with_kind(&accounts[3].data, KIND_GAME_ACC) {
            return Err(EscrowError::IncorrectAccountRole);
        }
        let mut taker_game_info = match GameAcc::unpack_unchecked(accounts[3].data.as_slice()) {
            Ok(found) => found,
            Err(why) => {
                return Err(why);
            },
        };
        let mut initialiser_game_info = match GameAcc::unpack_unchecked(
            accounts[2].data.as_slice(),
        ) {
            Ok(found) => found,
            Err(why) => {
                return Err(why);
            },
        };
        if taker_game_info.userspace_owner != accounts[0].key {
            return Err(EscrowError::IncorrectAccountRole);
        }
        match GameAcc::transfer_asset(
            &mut taker_game_info,
            &mut initialiser_game_info,
            escrow_info.asset_id,
        ) {
            Ok(()) => {},
            Err(why) => {
                return Err(why);
            },
        }
        if accounts[0].lamports.checked_add(escrow_info.amount).is_none() {
            return Err(EscrowError::AmountOverflow);
        }
        if accounts[1].lamports < escrow_info.amount {
            return Err(EscrowError::InsufficientFunds);
        }
        Ok((escrow_info, taker_game_info, initialiser_game_info))
    }

    /// Takes an escrow at the time `unix_timestamp`. See
    /// [`take_escrow_outcome`].
    pub fn process_take_escrow(
        program_id: &Identity,
        accounts: &mut Vec<RecordHandle>,
        unix_timestamp: i64,
    ) -> (done: Result<(), EscrowError>)
        ensures
            committed(
                take_escrow_outcome(program_id@, views(old(accounts)@), unix_timestamp),
                views(old(accounts)@),
                views(final(accounts)@),
                done,
            ),
    {
        let (mut escrow_info, taker_game_info, initialiser_game_info) =
            match Self::plan_take_escrow(program_id, accounts) {
            Ok(plan) => plan,
            Err(why) => {
                return Err(why);
            },
        };
        let taker_balance = accounts[0].lamports + escrow_info.amount;
        let escrow_balance = accounts[1].lamports - escrow_info.amount;
        escrow_info.is_taken = true;
        escrow_info.taker_game_acc = accounts[3].key;
        escrow_info.esc_taken_time = unix_timestamp;
        let initialiser_balance = accounts[2].lamports;
        let taker_game_balance = accounts[3].lamports;
        set_lamports(accounts, 0, taker_balance);
        store(accounts, 1, escrow_balance, escrow_info.encode());
        store(accounts, 2, initialiser_balance, initialiser_game_info.encode());
        store(accounts, 3, taker_game_balance, taker_game_info.encode());
        Ok(())
    }

    /// Makes the checks of a reclaim that come before the reading of the
    /// clock, and hands out the escrow. See [`revert_admission`]. Changes
    /// nothing.
    pub fn check_revert(program_id: &Identity, accounts: &Vec<RecordHandle>) -> (found: Result<
        Escrow,
        EscrowError,
    >)
        ensures
            match found {
                Ok(escrow) => revert_admission(program_id@, views(accounts@)) == Ok::<
                    EscrowView,
                    EscrowError,
                >(escrow@),
                Err(why) => revert_admission(program_id@, views(accounts@)) == Err::<
                    EscrowView,
                    EscrowError,
                >(why),
            },
    {
        if accounts.len() < 1 {
            return Err(EscrowError::NotEnoughAccountKeys);
        }
        if !accounts[0].is_writable {
            return Err(EscrowError::MissingPermission);
        }
        if accounts.len() < 2 {
            return Err(EscrowError::NotEnoughAccountKeys);
        }
        if !starts_with_kind(&accounts[1].data, KIND_ESCROW) {
            return Err(EscrowError::InvalidState);
        }
        let escrow_info = match Escrow::unpack_unchecked(accounts[1].data.as_slice()) {
            Ok(found) => found,
            Err(why) => {
                return Err(why);
            },
        };
        if !escrow_info.is_taken {
            return Err(EscrowError::InvalidState);
        }
        if accounts.len() < 4 {
            return Err(EscrowError::NotEnoughAccountKeys);
        }
        if !accounts[1].is_writable || !accounts[2].is_writable || !accounts[3].is_writable {
            return Err(EscrowError::MissingPermission);
        }
        if accounts[1].owner != *program_id {
            return Err(EscrowError::IncorrectProgramId);
        }
        if escrow_info.initialiser_game_acc != accounts[2].key || escrow_info.taker_game_acc
            != accounts[3].key || escrow_info.initialiser_main_acc != accounts[0].key {
            return Err(EscrowError::IncorrectAccountRole);
        }
        Ok(escrow_info)
    }

    /// Reclaims a taken escrow at the time `unix_timestamp`. See
    /// [`revert_outcome`].
    pub fn revert(
        program_id: &Identity,
        accounts: &mut Vec<RecordHandle>,
        unix_timestamp: i64,
    ) -> (done: Result<(), EscrowError>)
        ensures
            committed(
                revert_outcome(program_id@, views(old(accounts)@), unix_timestamp),
                views(old(accounts)@),
                views(final(accounts)@),
                done,
            ),
    {
        let escrow_info = match Self::check_revert(program_id, accounts) {
            Ok(found) => found,
            Err(why) => {
                return Err(why);
            },
        };
        if !Self::has_window_elapsed(escrow_info.esc_taken_time, escrow_info.time, unix_timestamp) {
            return Err(EscrowError::WindowNotElapsed);
        }
        let mut taker_game_info = match GameAcc::unpack_unchecked(accounts[3].data.as_slice()) {
            Ok(found) => found,
            Err(why) => {
                return Err(why);
            },
        };
        let mut initialiser_game_info = match GameAcc::unpack_unchecked(
            accounts[2].data.as_slice(),
        ) {
            Ok(found) => found,
            Err(why) => {
                return Err(why);
            },
        };
        match GameAcc::revert_asset(
            &mut initialiser_game_info,
            &mut taker_game_info,
            escrow_info.asset_id,
        ) {
            Ok(()) => {},
            Err(why) => {
                return Err(why);
            },
        }
        let depositor_balance = match accounts[0].lamports.checked_add(accounts[1].lamports) {
            Some(balance) => balance,
            None => {
                return Err(EscrowError::AmountOverflow);
            },
        };
        let initialiser_balance = accounts[2].lamports;
        let taker_game_balance = accounts[3].lamports;
        set_lamports(accounts, 0, depositor_balance);
        store(accounts, 1, 0, Vec::new());
        store(accounts, 2, initialiser_balance, initialiser_game_info.encode());
        store(accounts, 3, taker_game_balance, taker_game_info.encode());
        Ok(())
    }

    /// Whether at the time `now` more than `minutes` minutes have passed
    /// since `taken_at`.
    pub fn has_window_elapsed(taken_at: i64, minutes: u64, now: i64) -> (elapsed: bool)
        ensures
            elapsed == window_elapsed(taken_at, minutes, now),
    {
        let passed: i128 = now as i128 - taken_at as i128;
        let window: i128 = minutes as i128 * 60;
        passed > window
    }

    /// Makes the checks of the opening of an escrow that come before the
    /// reading of the rent minimum. See [`init_escrow_admission`]. Changes
    /// nothing.
    pub fn check_init_escrow(program_id: &Identity, accounts: &Vec<RecordHandle>) -> (admitted:
        Result<(), EscrowError>)
        ensures
            admitted == init_escrow_admission(program_id@, views(accounts@)),
    {
        if accounts.len() < 1 {
            return Err(EscrowError::NotEnoughAccountKeys);
        }
        if !accounts[0].is_writable {
            return Err(EscrowError::MissingPermission);
        }
        if accounts.len() < 2 {
            return Err(EscrowError::NotEnoughAccountKeys);
        }
        if accounts[1].owner != *program_id || accounts[0].owner != *program_id {
            return Err(EscrowError::IncorrectProgramId);
        }
        if accounts.len() < 3 {
            return Err(EscrowError::NotEnoughAccountKeys);
        }
        Ok(())
    }

    /// Opens an escrow. See [`init_escrow_outcome`].
    pub fn process_init_escrow(
        program_id: &Identity,
        accounts: &mut Vec<RecordHandle>,
        init_esc_data: InitEscData,
        rent_exempt_minimum: u64,
    ) -> (done: Result<(), EscrowError>)
        ensures
            committed(
                init_escrow_outcome(
                    program_id@,
                    views(old(accounts)@),
                    init_esc_data,
                    rent_exempt_minimum,
                ),
                views(old(accounts)@),
                views(final(accounts)@),
                done,
            ),
    {
        match Self::check_init_escrow(program_id, accounts) {
            Ok(()) => {},
            Err(why) => {
                return Err(why);
            },
        }
        if (accounts[0].lamports as u128) < rent_exempt_minimum as u128
            + init_esc_data.amount as u128 {
            return Err(EscrowError::InsufficientFunds);
        }
        if starts_with_kind(&accounts[0].data, KIND_GAME_ACC) {
            return Err(EscrowError::IncorrectAccountRole);
        }
        if !starts_with_kind(&accounts[1].data, KIND_GAME_ACC) {
            return Err(EscrowError::IncorrectAccountRole);
        }
        let mut escrow_info = match Escrow::unpack_unchecked(accounts[0].data.as_slice()) {
            Ok(found) => found,
            Err(why) => {
                return Err(why);
            },
        };
        if escrow_info.is_initialized() {
            return Err(EscrowError::AlreadyInitialized);
        }
        if init_esc_data.asset_id == EMPTY_SLOT {
            return Err(EscrowError::InvalidInstruction);
        }
        escrow_info.acc_type = KIND_ESCROW;
        escrow_info.is_taken = false;
        escrow_info.initialiser_main_acc = accounts[2].key;
        escrow_info.initialiser_game_acc = accounts[1].key;
        escrow_info.amount = init_esc_data.amount;
        escrow_info.time = init_esc_data.time;
        escrow_info.asset_id = init_esc_data.asset_id;
        let lamports = accounts[0].lamports;
        store(accounts, 0, lamports, escrow_info.encode());
        Ok(())
    }

    /// Makes the checks of the opening of an asset account that come before
    /// the reading of the rent minimum. See [`init_game_acc_admission`].
    /// Changes nothing.
    pub fn check_init_game_acc(program_id: &Identity, accounts: &Vec<RecordHandle>) -> (admitted:
        Result<(), EscrowError>)
        ensures
            admitted == init_game_acc_admission(program_id@, views(accounts@)),
    {
        if accounts.len() < 1 {
            return Err(EscrowError::NotEnoughAccountKeys);
        }
        if !accounts[0].is_writable {
            return Err(EscrowError::MissingPermission);
        }
        if accounts[0].owner != *program_id {
            return Err(EscrowError::IncorrectProgramId);
        }
        if !starts_with_kind(&accounts[0].data, KIND_UNINITIALIZED) {
            return Err(EscrowError::IncorrectAccountRole);
        }
        if accounts.len() < 2 {
            return Err(EscrowError::NotEnoughAccountKeys);
        }
        Ok(())
    }

    /// Opens a player's asset account. See [`init_game_acc_outcome`].
    pub fn process_init_game_acc(
        program_id: &Identity,
        accounts: &mut Vec<RecordHandle>,
        rent_exempt_minimum: u64,
    ) -> (done: Result<(), EscrowError>)
        ensures
            committed(
                init_game_acc_outcome(program_id@, views(old(accounts)@), rent_exempt_minimum),
                views(old(accounts)@),
                views(final(accounts)@),
                done,
            ),
    {
        match Self::check_init_game_acc(program_id, accounts) {
            Ok(()) => {},
            Err(why) => {
                return Err(why);
            },
        }
        if accounts[0].lamports < rent_exempt_minimum {
            return Err(EscrowError::InsufficientFunds);
        }
        let mut game_acc_info = match GameAcc::unpack_unchecked(accounts[0].data.as_slice()) {
            Ok(found) => found,
            Err(why) => {
                return Err(why);
            },
        };
        game_acc_info.userspace_owner = accounts[1].key;
        game_acc_info.acc_type = KIND_GAME_ACC;
        let lamports = accounts[0].lamports;
        store(accounts, 0, lamports, game_acc_info.encode());
        Ok(())
    }

    /// Adds an asset to a player's owned set. See [`add_asset_outcome`].
    pub fn add_asset(
        program_id: &Identity,
        accounts: &mut Vec<RecordHandle>,
        asset_id: u64,
    ) -> (done: Result<(), EscrowError>)
        ensures
            committed(
                add_asset_outcome(program_id@, views(old(accounts)@), asset_id),
                views(old(accounts)@),
                views(final(accounts)@),
                done,
            ),
    {
        if asset_id == EMPTY_SLOT {
            return Err(EscrowError::InvalidInstruction);
        }
        if accounts.len() < 1 {
            return Err(EscrowError::NotEnoughAccountKeys);
        }
        if !accounts[0].is_writable {
            return Err(EscrowError::MissingPermission);
        }
        if accounts[0].owner != *program_id {
            return Err(EscrowError::IncorrectProgramId);
        }
        if !starts_with_kind(&accounts[0].data, KIND_GAME_ACC) {
            return Err(EscrowError::IncorrectAccountRole);
        }
        let mut game_acc_info = match GameAcc::unpack_unchecked(accounts[0].data.as_slice()) {
            Ok(found) => found,
            Err(why) => {
                return Err(why);
            },
        };
        match game_acc_info.owned.insert(asset_id) {
            Ok(()) => {},
            Err(why) => {
                return Err(why);
            },
        }
        let lamports = accounts[0].lamports;
        store(accounts, 0, lamports, game_acc_info.encode());
        Ok(())
    }
}

} // verus!
