use crate::endian::{
    i64_from_le, i64_to_le, lemma_i64_le_canonical, lemma_i64_le_round_trip,
    lemma_u64_le_canonical, lemma_u64_le_round_trip, lemma_u64_to_le_len, overwrite,
    read_i64_le, read_u64_le, u64_from_le, u64_to_le, write_i64_le, write_u64_le,
};
use crate::error::EscrowError;
use crate::identity::Identity;
use crate::slots::{
    first_slot, holdings, lemma_first_slot, lemma_holdings_added, lemma_holdings_contains,
    lemma_holdings_removed, lemma_slots_canonical, lemma_slots_round_trip, slots_from_le,
    slots_to_le, with_added, with_removed, AssetSlots, EMPTY_SLOT,
};
use vstd::prelude::*;

verus! {

broadcast use lemma_u64_to_le_len;

/// Kind byte of a record that holds nothing yet.
pub const KIND_UNINITIALIZED: u8 = 0;

/// Kind byte of an escrow record.
pub const KIND_ESCROW: u8 = 1;

/// Kind byte of a player's asset account.
pub const KIND_GAME_ACC: u8 = 2;

/// Number of bytes that store an escrow record.
pub const ESCROW_LEN: usize = 130;

/// Number of bytes that store a player's asset account.
pub const GAME_ACC_LEN: usize = 353;

/// Whether the stored bytes start with the kind byte `kind`. Bytes of length 0
/// carry no kind.
pub open spec fn has_kind(data: Seq<u8>, kind: u8) -> bool {
    data.len() > 0 && data[0] == kind
}

/// An escrow: funds deposited against the loan of one asset.
///
/// Stored in 130 bytes: the kind byte, the taken flag, three identities of 32
/// bytes each, then the time of taking, the amount, the window and the asset
/// id, eight bytes each, least significant byte first.
#[derive(Clone, Copy, Debug, PartialEq, Eq)]
pub struct Escrow {
    /// 0 while the record holds nothing, 1 once it holds an escrow.
    pub acc_type: u8,
    /// Whether the escrow has been taken.
    pub is_taken: bool,
    /// Who deposited the funds, and who gets back what is left.
    pub initialiser_main_acc: Identity,
    /// The depositor's asset account.
    pub initialiser_game_acc: Identity,
    /// The asset account of whoever took the escrow.
    pub taker_game_acc: Identity,
    /// When the escrow was taken, in seconds. Means nothing before that.
    pub esc_taken_time: i64,
    /// The funds that the taker receives.
    pub amount: u64,
    /// Minutes that have to pass after the taking before a reclaim.
    pub time: u64,
    /// The asset lent. 0 names no asset.
    pub asset_id: u64,
}

/// What an [`Escrow`] holds, with each identity as its bytes.
pub struct EscrowView {
    pub acc_type: u8,
    pub is_taken: bool,
    pub initialiser_main_acc: Seq<u8>,
    pub initialiser_game_acc: Seq<u8>,
    pub taker_game_acc: Seq<u8>,
    pub esc_taken_time: i64,
    pub amount: u64,
    pub time: u64,
    pub asset_id: u64,
}

impl View for Escrow {
    type V = EscrowView;

    open spec fn view(&self) -> EscrowView {
        EscrowView {
            acc_type: self.acc_type,
            is_taken: self.is_taken,
            initialiser_main_acc: self.initialiser_main_acc@,
            initialiser_game_acc: self.initialiser_game_acc@,
            taker_game_acc: self.taker_game_acc@,
            esc_taken_time: self.esc_taken_time,
            amount: self.amount,
            time: self.time,
            asset_id: self.asset_id,
        }
    }
}

impl EscrowView {
    /// The kind is one that an escrow record may have, and each identity has
    /// 32 bytes.
    pub open spec fn wf(self) -> bool {
        &&& self.acc_type == KIND_UNINITIALIZED || self.acc_type == KIND_ESCROW
        &&& self.initialiser_main_acc.len() == 32
        &&& self.initialiser_game_acc.len() == 32
        &&& self.taker_game_acc.len() == 32
    }

    /// Whether the record holds an escrow.
    pub open spec fn is_initialized(self) -> bool {
        self.acc_type == KIND_ESCROW
    }

    /// The bytes that store the record.
    pub open spec fn encoding(self) -> Seq<u8> {
        seq![self.acc_type, if self.is_taken { 1u8 } else { 0u8 }] + self.initialiser_main_acc
            + self.initialiser_game_acc + self.taker_game_acc + i64_to_le(self.esc_taken_time)
            + u64_to_le(self.amount) + u64_to_le(self.time) + u64_to_le(self.asset_id)
    }

    /// The record that the first 130 bytes of `b` store, or why they store
    /// none: `InvalidLayout` for fewer than 130 bytes, else `InvalidKindTag` for
    /// a kind byte other than 0 and 1, else `InvalidLayout` for a taken flag
    /// other than 0 and 1.
    pub open spec fn parse(b: Seq<u8>) -> Result<EscrowView, EscrowError> {
        if b.len() < ESCROW_LEN {
            Err(EscrowError::InvalidLayout)
        } else if b[0] != KIND_UNINITIALIZED && b[0] != KIND_ESCROW {
            Err(EscrowError::InvalidKindTag)
        } else if b[1] != 0 && b[1] != 1 {
            Err(EscrowError::InvalidLayout)
        } else {
            Ok(
                EscrowView {
                    acc_type: b[0],
                    is_taken: b[1] == 1,
                    initialiser_main_acc: b.subrange(2, 34),
                    initialiser_game_acc: b.subrange(34, 66),
                    taker_game_acc: b.subrange(66, 98),
                    esc_taken_time: i64_from_le(b.subrange(98, 106)),
                    amount: u64_from_le(b.subrange(106, 114)),
                    time: u64_from_le(b.subrange(114, 122)),
                    asset_id: u64_from_le(b.subrange(122, 130)),
                },
            )
        }
    }

    /// The record that the data of a ledger record store. The data have to be
    /// the 130 bytes of an escrow record and nothing more: any other length
    /// is an `InvalidLayout`.
    pub open spec fn load(data: Seq<u8>) -> Result<EscrowView, EscrowError> {
        if data.len() != ESCROW_LEN {
            Err(EscrowError::InvalidLayout)
        } else {
            EscrowView::parse(data)
        }
    }
}

/// Decoding the bytes of a well-formed escrow record gives the record back,
/// also where they are the data of a ledger record.
pub proof fn lemma_escrow_round_trip(e: EscrowView)
    requires
        e.wf(),
    ensures
        e.encoding().len() == ESCROW_LEN,
        EscrowView::parse(e.encoding()) == Ok::<EscrowView, EscrowError>(e),
        EscrowView::load(e.encoding()) == Ok::<EscrowView, EscrowError>(e),
{
    let b = e.encoding();
    lemma_i64_le_round_trip(e.esc_taken_time);
    lemma_u64_le_round_trip(e.amount);
    lemma_u64_le_round_trip(e.time);
    lemma_u64_le_round_trip(e.asset_id);
    assert(b.subrange(2, 34) =~= e.initialiser_main_acc);
    assert(b.subrange(34, 66) =~= e.initialiser_game_acc);
    assert(b.subrange(66, 98) =~= e.taker_game_acc);
    assert(b.subrange(98, 106) =~= i64_to_le(e.esc_taken_time));
    assert(b.subrange(106, 114) =~= u64_to_le(e.amount));
    assert(b.subrange(114, 122) =~= u64_to_le(e.time));
    assert(b.subrange(122, 130) =~= u64_to_le(e.asset_id));
}

/// Bytes that decode to an escrow record start with the bytes of that record,
/// and the record is well formed. Where nothing follows the record the bytes
/// are those of the record.
pub proof fn lemma_escrow_canonical(b: Seq<u8>, e: EscrowView)
    requires
        EscrowView::parse(b) == Ok::<EscrowView, EscrowError>(e),
    ensures
        e.wf(),
        e.encoding() == b.subrange(0, ESCROW_LEN as int),
        b.len() == ESCROW_LEN ==> e.encoding() == b,
{
    assert(b.len() == ESCROW_LEN ==> b.subrange(0, ESCROW_LEN as int) =~= b);
    lemma_i64_le_canonical(b.subrange(98, 106));
    lemma_u64_le_canonical(b.subrange(106, 114));
    lemma_u64_le_canonical(b.subrange(114, 122));
    lemma_u64_le_canonical(b.subrange(122, 130));
    assert(e.encoding() =~= b.subrange(0, ESCROW_LEN as int));
}

/// Decoding reads the first 130 bytes and nothing after them: bytes that start
/// with the bytes of a well-formed escrow record decode to that record.
pub proof fn lemma_escrow_stored(data: Seq<u8>, e: EscrowView)
    requires
        data.len() >= ESCROW_LEN,
        e.wf(),
    ensures
        overwrite(data, 0, e.encoding()).len() == data.len(),
        overwrite(data, 0, e.encoding())[0] == e.acc_type,
        EscrowView::parse(overwrite(data, 0, e.encoding())) == Ok::<EscrowView, EscrowError>(e),
{
    lemma_escrow_round_trip(e);
    let b = e.encoding();
    let d = overwrite(data, 0, b);
    assert(d.subrange(0, ESCROW_LEN as int) =~= b);
    assert(d.subrange(2, 34) =~= b.subrange(2, 34));
    assert(d.subrange(34, 66) =~= b.subrange(34, 66));
    assert(d.subrange(66, 98) =~= b.subrange(66, 98));
    assert(d.subrange(98, 106) =~= b.subrange(98, 106));
    assert(d.subrange(106, 114) =~= b.subrange(106, 114));
    assert(d.subrange(114, 122) =~= b.subrange(114, 122));
    assert(d.subrange(122, 130) =~= b.subrange(122, 130));
    assert(d[0] == b[0]);
    assert(d[1] == b[1]);
}

impl Escrow {
    /// Whether the record holds an escrow.
    pub fn is_initialized(&self) -> (yes: bool)
        ensures
            yes == self@.is_initialized(),
    {
        self.acc_type == KIND_ESCROW
    }

    /// Decodes the record stored in the first 130 bytes of `src`. Fails, and
    /// never panics, on bytes that store none.
    pub fn unpack_from_slice(src: &[u8]) -> (record: Result<Escrow, EscrowError>)
        ensures
            match record {
                Ok(e) => EscrowView::parse(src@) == Ok::<EscrowView, EscrowError>(e@),
                Err(why) => EscrowView::parse(src@) == Err::<EscrowView, EscrowError>(why),
            },
            src.len() < ESCROW_LEN ==> record == Err::<Escrow, EscrowError>(
                EscrowError::InvalidLayout,
            ),
    {
        if src.len() < ESCROW_LEN {
            return Err(EscrowError::InvalidLayout);
        }
        let acc_type = src[0];
        if acc_type != KIND_UNINITIALIZED && acc_type != KIND_ESCROW {
            return Err(EscrowError::InvalidKindTag);
        }
        let flag = src[1];
        if flag != 0 && flag != 1 {
            return Err(EscrowError::InvalidLayout);
        }
        Ok(
            Escrow {
                acc_type,
                is_taken: flag == 1,
                initialiser_main_acc: Identity::read(src, 2),
                initialiser_game_acc: Identity::read(src, 34),
                taker_game_acc: Identity::read(src, 66),
                esc_taken_time: read_i64_le(src, 98),
                amount: read_u64_le(src, 106),
                time: read_u64_le(src, 114),
                asset_id: read_u64_le(src, 122),
            },
        )
    }

    /// Decodes the record that the data of a ledger record store: exactly 130
    /// bytes. Whether the record holds an escrow yet is not asked.
    pub fn unpack_unchecked(input: &[u8]) -> (record: Result<Escrow, EscrowError>)
        ensures
            match record {
                Ok(e) => EscrowView::load(input@) == Ok::<EscrowView, EscrowError>(e@),
                Err(why) => EscrowView::load(input@) == Err::<EscrowView, EscrowError>(why),
            },
    {
        if input.len() != ESCROW_LEN {
            return Err(EscrowError::InvalidLayout);
        }
        Escrow::unpack_from_slice(input)
    }

    /// Stores the record in the first 130 bytes of `dst` and leaves the bytes
    /// after them as they were.
    pub fn pack_into_slice(&self, dst: &mut [u8])
        requires
            old(dst).len() >= ESCROW_LEN,
        ensures
            final(dst)@ == overwrite(old(dst)@, 0, self@.encoding()),
    {
        dst[0] = self.acc_type;
        dst[1] = if self.is_taken {
            1
        } else {
            0
        };
        self.initialiser_main_acc.write(dst, 2);
        self.initialiser_game_acc.write(dst, 34);
        self.taker_game_acc.write(dst, 66);
        write_i64_le(dst, 98, self.esc_taken_time);
        write_u64_le(dst, 106, self.amount);
        write_u64_le(dst, 114, self.time);
        write_u64_le(dst, 122, self.asset_id);
        assert(dst@ =~= overwrite(old(dst)@, 0, self@.encoding()));
    }

    /// The 130 bytes that store the record.
    pub fn encode(&self) -> (bytes: Vec<u8>)
        ensures
            bytes@ == self@.encoding(),
    {
        let mut bytes: Vec<u8> = Vec::new();
        bytes.resize(ESCROW_LEN, 0u8);
        self.pack_into_slice(bytes.as_mut_slice());
        assert(bytes@ =~= self@.encoding());
        bytes
    }
}

/// A player's asset account: who owns it, the assets owned outright and the
/// assets held on loan from others.
///
/// Stored in 353 bytes: the kind byte, the owner's identity, then the 20 owned
/// slots and the 20 rented slots, eight bytes each, least significant byte
/// first.
#[derive(Clone, Copy, Debug, PartialEq, Eq)]
pub struct GameAcc {
    /// 0 while the record holds nothing, 2 once it holds an account.
    pub acc_type: u8,
    /// The player to whom the account belongs.
    pub userspace_owner: Identity,
    /// Assets that the player owns and has not lent out.
    pub owned: AssetSlots,
    /// Assets that the player holds on loan.
    pub rented: AssetSlots,
}

/// What a [`GameAcc`] holds: the owner as bytes, each set as its 20 slots.
pub struct GameAccView {
    pub acc_type: u8,
    pub userspace_owner: Seq<u8>,
    pub owned: Seq<u64>,
    pub rented: Seq<u64>,
}

impl View for GameAcc {
    type V = GameAccView;

    open spec fn view(&self) -> GameAccView {
        GameAccView {
            acc_type: self.acc_type,
            userspace_owner: self.userspace_owner@,
            owned: self.owned@,
            rented: self.rented@,
        }
    }
}

impl GameAccView {
    /// The kind is one that an asset account may have, the owner has 32 bytes
    /// and each set has 20 slots.
    pub open spec fn wf(self) -> bool {
        &&& self.acc_type == KIND_UNINITIALIZED || self.acc_type == KIND_GAME_ACC
        &&& self.userspace_owner.len() == 32
        &&& self.owned.len() == 20
        &&& self.rented.len() == 20
    }

    /// Whether the record holds an account.
    pub open spec fn is_initialized(self) -> bool {
        self.acc_type == KIND_GAME_ACC
    }

    /// The bytes that store the record.
    pub open spec fn encoding(self) -> Seq<u8> {
        seq![self.acc_type] + self.userspace_owner + slots_to_le(self.owned) + slots_to_le(
            self.rented,
        )
    }

    /// The record that the first 353 bytes of `b` store, or why they store
    /// none: `InvalidLayout` for fewer than 353 bytes, else `InvalidKindTag` for
    /// a kind byte other than 0 and 2.
    pub open spec fn parse(b: Seq<u8>) -> Result<GameAccView, EscrowError> {
        if b.len() < GAME_ACC_LEN {
            Err(EscrowError::InvalidLayout)
        } else if b[0] != KIND_UNINITIALIZED && b[0] != KIND_GAME_ACC {
            Err(EscrowError::InvalidKindTag)
        } else {
            Ok(
                GameAccView {
                    acc_type: b[0],
                    userspace_owner: b.subrange(1, 33),
                    owned: slots_from_le(b.subrange(33, 193)),
                    rented: slots_from_le(b.subrange(193, 353)),
                },
            )
        }
    }

    /// The account that the data of a ledger record store. The data have to
    /// be the 353 bytes of an asset account and nothing more: any other
    /// length is an `InvalidLayout`.
    pub open spec fn load(data: Seq<u8>) -> Result<GameAccView, EscrowError> {
        if data.len() != GAME_ACC_LEN {
            Err(EscrowError::InvalidLayout)
        } else {
            GameAccView::parse(data)
        }
    }
}

/// Decoding the bytes of a well-formed asset account gives the account back,
/// also where they are the data of a ledger record.
pub proof fn lemma_game_acc_round_trip(g: GameAccView)
    requires
        g.wf(),
    ensures
        g.encoding().len() == GAME_ACC_LEN,
        GameAccView::parse(g.encoding()) == Ok::<GameAccView, EscrowError>(g),
        GameAccView::load(g.encoding()) == Ok::<GameAccView, EscrowError>(g),
{
    let b = g.encoding();
    lemma_slots_round_trip(g.owned);
    lemma_slots_round_trip(g.rented);
    assert(b.subrange(1, 33) =~= g.userspace_owner);
    assert(b.subrange(33, 193) =~= slots_to_le(g.owned));
    assert(b.subrange(193, 353) =~= slots_to_le(g.rented));
}

/// Bytes that decode to an asset account start with the bytes of that account,
/// and the account is well formed. Where nothing follows the account the
/// bytes are those of the account.
pub proof fn lemma_game_acc_canonical(b: Seq<u8>, g: GameAccView)
    requires
        GameAccView::parse(b) == Ok::<GameAccView, EscrowError>(g),
    ensures
        g.wf(),
        g.encoding() == b.subrange(0, GAME_ACC_LEN as int),
        b.len() == GAME_ACC_LEN ==> g.encoding() == b,
{
    assert(b.len() == GAME_ACC_LEN ==> b.subrange(0, GAME_ACC_LEN as int) =~= b);
    lemma_slots_canonical(b.subrange(33, 193));
    lemma_slots_canonical(b.subrange(193, 353));
    assert(g.encoding() =~= b.subrange(0, GAME_ACC_LEN as int));
}

/// Decoding reads the first 353 bytes and nothing after them: bytes that start
/// with the bytes of a well-formed asset account decode to that account.
pub proof fn lemma_game_acc_stored(data: Seq<u8>, g: GameAccView)
    requires
        data.len() >= GAME_ACC_LEN,
        g.wf(),
    ensures
        overwrite(data, 0, g.encoding()).len() == data.len(),
        overwrite(data, 0, g.encoding())[0] == g.acc_type,
        GameAccView::parse(overwrite(data, 0, g.encoding())) == Ok::<GameAccView, EscrowError>(g),
{
    lemma_game_acc_round_trip(g);
    let b = g.encoding();
    let d = overwrite(data, 0, b);
    assert(d.subrange(0, GAME_ACC_LEN as int) =~= b);
    assert(d.subrange(1, 33) =~= b.subrange(1, 33));
    assert(d.subrange(33, 193) =~= b.subrange(33, 193));
    assert(d.subrange(193, 353) =~= b.subrange(193, 353));
    assert(d[0] == b[0]);
}

/// What lending `asset_id` makes of the two accounts, lender first: the asset
/// leaves the first slot of the lender's owned set that holds it and enters
/// the first empty slot of the borrower's rented set. The loan fails with
/// `AssetNotOwnedBySender` when the lender does not own the asset, else with
/// `CapacityExceeded` when the borrower's rented set has no empty slot.
pub open spec fn lend(lender: GameAccView, borrower: GameAccView, asset_id: u64) -> Result<
    (GameAccView, GameAccView),
    EscrowError,
> {
    if !lender.owned.contains(asset_id) {
        Err(EscrowError::AssetNotOwnedBySender)
    } else if !borrower.rented.contains(EMPTY_SLOT) {
        Err(EscrowError::CapacityExceeded)
    } else {
        Ok(
            (
                GameAccView { owned: with_removed(lender.owned, asset_id), ..lender },
                GameAccView { rented: with_added(borrower.rented, asset_id), ..borrower },
            ),
        )
    }
}

/// What reclaiming `asset_id` makes of the two accounts, borrower first: the
/// asset leaves the first slot of the borrower's rented set that holds it, if
/// any does, and enters the first empty slot of the lender's owned set. Where
/// the lender's owned set has no empty slot it stays as it is, and the asset
/// is in neither set afterwards.
pub open spec fn reclaim(borrower: GameAccView, lender: GameAccView, asset_id: u64) -> (
    GameAccView,
    GameAccView,
) {
    (
        GameAccView { rented: with_removed(borrower.rented, asset_id), ..borrower },
        GameAccView {
            owned: if lender.owned.contains(EMPTY_SLOT) {
                with_added(lender.owned, asset_id)
            } else {
                lender.owned
            },
            ..lender
        },
    )
}

/// A loan followed by the reclaim of the same asset between the same accounts
/// leaves each account with the holdings it had before the loan, in both of
/// its sets. The slots in which the assets stand may differ.
pub proof fn lemma_lend_then_reclaim(lender: GameAccView, borrower: GameAccView, asset_id: u64)
    requires
        lend(lender, borrower, asset_id) is Ok,
    ensures
        ({
            let (lent, borrowed) = lend(lender, borrower, asset_id)->Ok_0;
            let (returned, restored) = reclaim(borrowed, lent, asset_id);
            &&& holdings(restored.owned) == holdings(lender.owned)
            &&& restored.rented == lender.rented
            &&& returned.owned == borrower.owned
            &&& holdings(returned.rented) == holdings(borrower.rented)
            &&& restored.acc_type == lender.acc_type
            &&& restored.userspace_owner == lender.userspace_owner
            &&& returned.acc_type == borrower.acc_type
            &&& returned.userspace_owner == borrower.userspace_owner
        }),
{
    let (lent, borrowed) = lend(lender, borrower, asset_id)->Ok_0;
    lemma_first_slot(lender.owned, asset_id);
    assert(lent.owned[first_slot(lender.owned, asset_id)] == EMPTY_SLOT);
    assert(lent.owned.contains(EMPTY_SLOT));
    lemma_holdings_removed(lender.owned, asset_id);
    lemma_holdings_added(lent.owned, asset_id);
    lemma_holdings_contains(lender.owned, asset_id);
    lemma_holdings_contains(lender.owned, EMPTY_SLOT);
    assert(holdings(lender.owned).remove(asset_id).insert(asset_id) =~= holdings(lender.owned)
        || asset_id == EMPTY_SLOT);
    assert(holdings(lender.owned).remove(EMPTY_SLOT) =~= holdings(lender.owned));
    lemma_holdings_added(borrower.rented, asset_id);
    lemma_holdings_removed(borrowed.rented, asset_id);
    lemma_holdings_contains(borrower.rented, EMPTY_SLOT);
    assert(holdings(borrower.rented).insert(asset_id).remove(asset_id) =~= holdings(
        borrower.rented,
    ));
    assert(holdings(borrower.rented).remove(EMPTY_SLOT) =~= holdings(borrower.rented));
}

/// A loan neither makes nor loses an asset: what the lender owns and the
/// borrower rents, taken together, is the same before and after.
pub proof fn lemma_lend_keeps_assets(lender: GameAccView, borrower: GameAccView, asset_id: u64)
    requires
        lend(lender, borrower, asset_id) is Ok,
    ensures
        ({
            let (lent, borrowed) = lend(lender, borrower, asset_id)->Ok_0;
            holdings(lent.owned).add(holdings(borrowed.rented)) == holdings(lender.owned).add(
                holdings(borrower.rented),
            )
        }),
{
    let (lent, borrowed) = lend(lender, borrower, asset_id)->Ok_0;
    lemma_holdings_removed(lender.owned, asset_id);
    lemma_holdings_added(borrower.rented, asset_id);
    lemma_holdings_contains(lender.owned, asset_id);
    assert(holdings(lent.owned).add(holdings(borrowed.rented)) =~= holdings(lender.owned).add(
        holdings(borrower.rented),
    ));
}

/// A reclaim neither makes nor loses an asset where the borrower rents the
/// asset and the lender's owned set has an empty slot: what the borrower
/// rents and the lender owns, taken together, is then the same before and
/// after.
pub proof fn lemma_reclaim_keeps_assets(borrower: GameAccView, lender: GameAccView, asset_id: u64)
    requires
        borrower.rented.contains(asset_id),
        lender.owned.contains(EMPTY_SLOT),
    ensures
        ({
            let (returned, restored) = reclaim(borrower, lender, asset_id);
            holdings(returned.rented).add(holdings(restored.owned)) == holdings(
                borrower.rented,
            ).add(holdings(lender.owned))
        }),
{
    let (returned, restored) = reclaim(borrower, lender, asset_id);
    lemma_holdings_removed(borrower.rented, asset_id);
    lemma_holdings_added(lender.owned, asset_id);
    lemma_holdings_contains(borrower.rented, asset_id);
    assert(holdings(returned.rented).add(holdings(restored.owned)) =~= holdings(
        borrower.rented,
    ).add(holdings(lender.owned)));
}

impl GameAcc {
    /// Whether the record holds an account.
    pub fn is_initialized(&self) -> (yes: bool)
        ensures
            yes == self@.is_initialized(),
    {
        self.acc_type == KIND_GAME_ACC
    }

    /// Lends `asset_id`: moves it from the owned set of `sender_acc_info` to
    /// the rented set of `reciever_acc_info`. On failure both accounts stay as
    /// they were; in particular a full rented set leaves the sender's owned set
    /// untouched.
    pub fn transfer_asset(
        sender_acc_info: &mut GameAcc,
        reciever_acc_info: &mut GameAcc,
        asset_id: u64,
    ) -> (done: Result<(), EscrowError>)
        ensures
            match lend(old(sender_acc_info)@, old(reciever_acc_info)@, asset_id) {
                Ok((lent, borrowed)) => {
                    &&& done == Ok::<(), EscrowError>(())
                    &&& final(sender_acc_info)@ == lent
                    &&& final(reciever_acc_info)@ == borrowed
                },
                Err(why) => {
                    &&& done == Err::<(), EscrowError>(why)
                    &&& final(sender_acc_info)@ == old(sender_acc_info)@
                    &&& final(reciever_acc_info)@ == old(reciever_acc_info)@
                },
            },
            !old(sender_acc_info).owned@.contains(asset_id) ==> {
                &&& done == Err::<(), EscrowError>(EscrowError::AssetNotOwnedBySender)
                &&& final(sender_acc_info).owned@ == old(sender_acc_info).owned@
            },
            old(sender_acc_info).owned@.contains(asset_id) && !old(
                reciever_acc_info
            ).rented@.contains(EMPTY_SLOT) ==> {
                &&& done == Err::<(), EscrowError>(EscrowError::CapacityExceeded)
                &&& final(sender_acc_info)@ == old(sender_acc_info)@
                &&& final(reciever_acc_info)@ == old(reciever_acc_info)@
            },
    {
        let at = match sender_acc_info.owned.find(asset_id) {
            Some(at) => at,
            None => {
                return Err(EscrowError::AssetNotOwnedBySender);
            },
        };
        match reciever_acc_info.rented.insert(asset_id) {
            Ok(()) => {},
            Err(why) => {
                return Err(why);
            },
        }
        sender_acc_info.owned.slots[at] = EMPTY_SLOT;
        Ok(())
    }

    /// Reclaims `asset_id`: takes it out of the rented set of
    /// `sender_acc_info`, if it is there, and puts it into the owned set of
    /// `reciever_acc_info`. Never fails: where the owned set has no empty slot
    /// the asset is dropped.
    pub fn revert_asset(
        sender_acc_info: &mut GameAcc,
        reciever_acc_info: &mut GameAcc,
        asset_id: u64,
    ) -> (done: Result<(), EscrowError>)
        ensures
            done == Ok::<(), EscrowError>(()),
            (final(sender_acc_info)@, final(reciever_acc_info)@) == reclaim(
                old(sender_acc_info)@,
                old(reciever_acc_info)@,
                asset_id,
            ),
    {
        sender_acc_info.rented.remove(asset_id);
        match reciever_acc_info.owned.insert(asset_id) {
            Ok(()) => {},
            Err(_) => {},
        }
        Ok(())
    }

    /// Decodes the record stored in the first 353 bytes of `src`. Fails, and
    /// never panics, on bytes that store none.
    pub fn unpack_from_slice(src: &[u8]) -> (record: Result<GameAcc, EscrowError>)
        ensures
            match record {
                Ok(g) => GameAccView::parse(src@) == Ok::<GameAccView, EscrowError>(g@),
                Err(why) => GameAccView::parse(src@) == Err::<GameAccView, EscrowError>(why),
            },
            src.len() < GAME_ACC_LEN ==> record == Err::<GameAcc, EscrowError>(
                EscrowError::InvalidLayout,
            ),
    {
        if src.len() < GAME_ACC_LEN {
            return Err(EscrowError::InvalidLayout);
        }
        let acc_type = src[0];
        if acc_type != KIND_UNINITIALIZED && acc_type != KIND_GAME_ACC {
            return Err(EscrowError::InvalidKindTag);
        }
        let record = GameAcc {
            acc_type,
            userspace_owner: Identity::read(src, 1),
            owned: AssetSlots::read(src, 33),
            rented: AssetSlots::read(src, 193),
        };
        Ok(record)
    }

    /// Decodes the account that the data of a ledger record store: exactly
    /// 353 bytes. Whether the record holds an account yet is not asked.
    pub fn unpack_unchecked(input: &[u8]) -> (record: Result<GameAcc, EscrowError>)
        ensures
            match record {
                Ok(g) => GameAccView::load(input@) == Ok::<GameAccView, EscrowError>(g@),
                Err(why) => GameAccView::load(input@) == Err::<GameAccView, EscrowError>(why),
            },
    {
        if input.len() != GAME_ACC_LEN {
            return Err(EscrowError::InvalidLayout);
        }
        GameAcc::unpack_from_slice(input)
    }

    /// Stores the record in the first 353 bytes of `dst` and leaves the bytes
    /// after them as they were.
    pub fn pack_into_slice(&self, dst: &mut [u8])
        requires
            old(dst).len() >= GAME_ACC_LEN,
        ensures
            final(dst)@ == overwrite(old(dst)@, 0, self@.encoding()),
    {
        dst[0] = self.acc_type;
        self.userspace_owner.write(dst, 1);
        self.owned.write(dst, 33);
        self.rented.write(dst, 193);
        assert(dst@ =~= overwrite(old(dst)@, 0, self@.encoding()));
    }

    /// The 353 bytes that store the record.
    pub fn encode(&self) -> (bytes: Vec<u8>)
        ensures
            bytes@ == self@.encoding(),
    {
        let mut bytes: Vec<u8> = Vec::new();
        bytes.resize(GAME_ACC_LEN, 0u8);
        self.pack_into_slice(bytes.as_mut_slice());
        assert(bytes@ =~= self@.encoding());
        bytes
    }
}

} // verus!
