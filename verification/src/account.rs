use crate::identity::Identity;
use vstd::prelude::*;

verus! {

/// One ledger record as the runtime hands it to a call: where it lives, which
/// program owns it, what the caller may do with it, its balance and its bytes.
/// A call changes only `lamports` and `data`, and the runtime commits them when
/// the call succeeds.
#[derive(Clone, Debug, PartialEq, Eq)]
pub struct RecordHandle {
    /// The address of the record.
    pub key: Identity,
    /// The program that owns the record.
    pub owner: Identity,
    /// Whether the holder of `key` has signed the call.
    pub is_signer: bool,
    /// Whether the call may change the record.
    pub is_writable: bool,
    /// The balance that backs the record.
    pub lamports: u64,
    /// The bytes stored in the record.
    pub data: Vec<u8>,
}

/// What a [`RecordHandle`] holds, with identities and data as bytes.
pub struct RecordView {
    pub key: Seq<u8>,
    pub owner: Seq<u8>,
    pub is_signer: bool,
    pub is_writable: bool,
    pub lamports: u64,
    pub data: Seq<u8>,
}

impl View for RecordHandle {
    type V = RecordView;

    open spec fn view(&self) -> RecordView {
        RecordView {
            key: self.key@,
            owner: self.owner@,
            is_signer: self.is_signer,
            is_writable: self.is_writable,
            lamports: self.lamports,
            data: self.data@,
        }
    }
}

impl RecordView {
    /// Both identities have 32 bytes.
    pub open spec fn wf(self) -> bool {
        self.key.len() == 32 && self.owner.len() == 32
    }
}

/// The records of a call, each as what it holds.
pub open spec fn views(records: Seq<RecordHandle>) -> Seq<RecordView> {
    Seq::new(records.len(), |i: int| records[i]@)
}

/// Whether both identities of every record have 32 bytes, as they have in the
/// records of every call.
pub open spec fn all_wf(records: Seq<RecordView>) -> bool {
    forall|i: int| 0 <= i < records.len() ==> (#[trigger] records[i]).wf()
}

/// What handles hold is well formed.
pub proof fn lemma_views_wf(records: Seq<RecordHandle>)
    ensures
        views(records).len() == records.len(),
        all_wf(views(records)),
{
}

/// `records` with the balance and the bytes of the record at `at` replaced.
pub open spec fn stored(records: Seq<RecordView>, at: int, lamports: u64, data: Seq<u8>) -> Seq<
    RecordView,
> {
    records.update(at, RecordView { lamports, data, ..records[at] })
}

/// What the ledger runtime reports to a call besides the records.
#[derive(Clone, Copy, Debug, PartialEq, Eq, Structural)]
pub struct Runtime {
    /// The least balance that exempts the first record of the call from rent,
    /// given the number of bytes it stores. Read only by a call that asks
    /// for it.
    pub rent_exempt_minimum: u64,
    /// The current time, in seconds. Read only by a call that asks for it.
    pub unix_timestamp: i64,
}

/// What a call has to learn from the runtime before it can go on.
#[derive(Clone, Copy, Debug, PartialEq, Eq, Structural)]
pub enum RuntimeRead {
    /// Nothing: the call reads neither the rent nor the clock.
    Nothing,
    /// The least balance that exempts a record of this many bytes from rent.
    RentMinimum(usize),
    /// The current time.
    Clock,
}

/// The sum of the balances of the records.
pub open spec fn total_lamports(records: Seq<RecordView>) -> int
    decreases records.len(),
{
    if records.len() == 0 {
        0
    } else {
        total_lamports(records.drop_last()) + records.last().lamports
    }
}

/// Replacing one record changes the sum of the balances by the difference
/// between the two balances of that record.
pub proof fn lemma_total_lamports_update(records: Seq<RecordView>, at: int, record: RecordView)
    requires
        0 <= at < records.len(),
    ensures
        total_lamports(records.update(at, record)) == total_lamports(records) - records[at].lamports
            + record.lamports,
    decreases records.len(),
{
    let after = records.update(at, record);
    if at == records.len() - 1 {
        assert(after.drop_last() =~= records.drop_last());
    } else {
        lemma_total_lamports_update(records.drop_last(), at, record);
        assert(after.drop_last() =~= records.drop_last().update(at, record));
    }
}

/// `records` with the balance of the record at `at` replaced.
pub open spec fn credited(records: Seq<RecordView>, at: int, lamports: u64) -> Seq<RecordView> {
    records.update(at, RecordView { lamports, ..records[at] })
}

/// Replaces the balance of the record at `at`.
pub fn set_lamports(accounts: &mut Vec<RecordHandle>, at: usize, lamports: u64)
    requires
        at < old(accounts).len(),
    ensures
        final(accounts).len() == old(accounts).len(),
        views(final(accounts)@) == credited(views(old(accounts)@), at as int, lamports),
{
    accounts[at].lamports = lamports;
    assert(views(accounts@) =~= credited(views(old(accounts)@), at as int, lamports));
}

/// Replaces the balance and the bytes of the record at `at`.
pub fn store(accounts: &mut Vec<RecordHandle>, at: usize, lamports: u64, data: Vec<u8>)
    requires
        at < old(accounts).len(),
    ensures
        final(accounts).len() == old(accounts).len(),
        views(final(accounts)@) == stored(views(old(accounts)@), at as int, lamports, data@),
{
    let record = RecordHandle {
        key: accounts[at].key,
        owner: accounts[at].owner,
        is_signer: accounts[at].is_signer,
        is_writable: accounts[at].is_writable,
        lamports,
        data,
    };
    accounts[at] = record;
    assert(views(accounts@) =~= stored(views(old(accounts)@), at as int, lamports, data@));
}

} // verus!
