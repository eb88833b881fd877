use crate::endian::{
    lemma_u64_le_canonical, lemma_u64_le_round_trip, lemma_u64_to_le_len, overwrite,
    read_u64_le, u64_from_le, u64_to_le, write_u64_le,
};
use crate::error::EscrowError;
use vstd::multiset::Multiset;
use vstd::prelude::*;

verus! {

broadcast use lemma_u64_to_le_len;

/// Number of slots in a set of assets.
pub const SLOT_COUNT: usize = 20;

/// The value of a slot that holds no asset. It is never the id of an asset.
pub const EMPTY_SLOT: u64 = 0;

/// Index of the first slot of `s` that holds `v`, or the length of `s` when no
/// slot does.
pub open spec fn first_slot(s: Seq<u64>, v: u64) -> int
    decreases s.len(),
{
    if s.len() == 0 {
        0
    } else if s[0] == v {
        0
    } else {
        1 + first_slot(s.drop_first(), v)
    }
}

/// `s` after `v` has been written into its first empty slot. Meant for an `s`
/// that has an empty slot.
pub open spec fn with_added(s: Seq<u64>, v: u64) -> Seq<u64> {
    s.update(first_slot(s, EMPTY_SLOT), v)
}

/// `s` after the first slot that holds `v` has been emptied; `s` itself when no
/// slot holds `v`.
pub open spec fn with_removed(s: Seq<u64>, v: u64) -> Seq<u64> {
    if s.contains(v) {
        s.update(first_slot(s, v), EMPTY_SLOT)
    } else {
        s
    }
}

/// The assets that the slots hold, each as often as it occurs. Empty slots do
/// not count, and the order of the slots does not matter.
pub open spec fn holdings(s: Seq<u64>) -> Multiset<u64>
    decreases s.len(),
{
    if s.len() == 0 {
        Multiset::empty()
    } else if s.last() == EMPTY_SLOT {
        holdings(s.drop_last())
    } else {
        holdings(s.drop_last()).insert(s.last())
    }
}

/// The bytes that store the slots: eight for each slot, in the order of the
/// slots, least significant byte first.
pub open spec fn slots_to_le(s: Seq<u64>) -> Seq<u8> {
    Seq::new(8 * s.len(), |k: int| u64_to_le(s[k / 8])[k % 8])
}

/// The 20 slots that the first 160 bytes of `b` store.
pub open spec fn slots_from_le(b: Seq<u8>) -> Seq<u64> {
    Seq::new(20, |i: int| u64_from_le(b.subrange(8 * i, 8 * i + 8)))
}

/// Reading back the bytes of 20 slots gives the slots.
pub proof fn lemma_slots_round_trip(s: Seq<u64>)
    requires
        s.len() == 20,
    ensures
        slots_to_le(s).len() == 160,
        slots_from_le(slots_to_le(s)) == s,
{
    let b = slots_to_le(s);
    assert forall|i: int| 0 <= i < 20 implies slots_from_le(b)[i] == s[i] by {
        assert(b.subrange(8 * i, 8 * i + 8) =~= u64_to_le(s[i]));
        lemma_u64_le_round_trip(s[i]);
    }
    assert(slots_from_le(b) =~= s);
}

/// 160 bytes are the only way to store the slots they hold.
pub proof fn lemma_slots_canonical(b: Seq<u8>)
    requires
        b.len() == 160,
    ensures
        slots_to_le(slots_from_le(b)) == b,
{
    let s = slots_from_le(b);
    assert forall|k: int| 0 <= k < 160 implies slots_to_le(s)[k] == b[k] by {
        let i = k / 8;
        let part = b.subrange(8 * i, 8 * i + 8);
        lemma_u64_le_canonical(part);
        assert(s[i] == u64_from_le(part));
        assert(part[k % 8] == b[k]);
    }
    assert(slots_to_le(s) =~= b);
}

/// `first_slot` names a slot that holds `v`, no earlier slot holds `v`, and it
/// names a slot at all exactly when some slot holds `v`.
pub proof fn lemma_first_slot(s: Seq<u64>, v: u64)
    ensures
        0 <= first_slot(s, v) <= s.len(),
        first_slot(s, v) < s.len() <==> s.contains(v),
        first_slot(s, v) < s.len() ==> s[first_slot(s, v)] == v,
        forall|j: int| 0 <= j < first_slot(s, v) ==> s[j] != v,
    decreases s.len(),
{
    if s.len() == 0 {
    } else if s[0] == v {
    } else {
        let rest = s.drop_first();
        lemma_first_slot(rest, v);
        let k = first_slot(rest, v);
        assert forall|j: int| 0 <= j < 1 + k implies s[j] != v by {
            if j > 0 {
                assert(s[j] == rest[j - 1]);
            }
        }
        if k < rest.len() {
            assert(s[1 + k] == rest[k]);
        }
        if s.contains(v) {
            let j = choose|j: int| 0 <= j < s.len() && s[j] == v;
            assert(rest[j - 1] == v);
        }
    }
}

/// A slot that holds `v` and has no earlier slot holding `v` is the first one.
pub proof fn lemma_first_slot_is(s: Seq<u64>, v: u64, i: int)
    requires
        0 <= i < s.len(),
        s[i] == v,
        forall|j: int| 0 <= j < i ==> s[j] != v,
    ensures
        first_slot(s, v) == i,
{
    lemma_first_slot(s, v);
}

/// An asset is among the holdings exactly when it is not 0 and some slot holds
/// it.
pub proof fn lemma_holdings_contains(s: Seq<u64>, v: u64)
    ensures
        holdings(s).count(v) > 0 <==> v != EMPTY_SLOT && s.contains(v),
    decreases s.len(),
{
    if s.len() > 0 {
        let front = s.drop_last();
        lemma_holdings_contains(front, v);
        if front.contains(v) {
            let j = choose|j: int| 0 <= j < front.len() && front[j] == v;
            assert(s[j] == v);
        }
        if s.contains(v) && s.last() != v {
            let j = choose|j: int| 0 <= j < s.len() && s[j] == v;
            assert(front[j] == v);
        }
    }
}

/// The holdings `held` after a slot that held `out` has come to hold `put`,
/// where an empty slot counts for nothing on either side.
pub open spec fn exchanged(held: Multiset<u64>, out: u64, put: u64) -> Multiset<u64> {
    let without = if out == EMPTY_SLOT {
        held
    } else {
        held.remove(out)
    };
    if put == EMPTY_SLOT {
        without
    } else {
        without.insert(put)
    }
}

/// Writing `v` into slot `i` takes out of the holdings what the slot held and
/// puts `v` in.
pub proof fn lemma_holdings_update(s: Seq<u64>, i: int, v: u64)
    requires
        0 <= i < s.len(),
    ensures
        s[i] != EMPTY_SLOT ==> holdings(s).count(s[i]) > 0,
        holdings(s.update(i, v)) == exchanged(holdings(s), s[i], v),
    decreases s.len(),
{
    let front = s.drop_last();
    let after = s.update(i, v);
    if i == s.len() - 1 {
        assert(after.drop_last() =~= front);
    } else {
        lemma_holdings_update(front, i, v);
        assert(after.drop_last() =~= front.update(i, v));
        assert(after.last() == s.last());
        assert(front[i] == s[i]);
    }
    assert(holdings(after) =~= exchanged(holdings(s), s[i], v));
}

/// Adding an asset to slots with an empty slot adds it to the holdings.
pub proof fn lemma_holdings_added(s: Seq<u64>, v: u64)
    requires
        s.contains(EMPTY_SLOT),
    ensures
        holdings(with_added(s, v)) == if v == EMPTY_SLOT {
            holdings(s)
        } else {
            holdings(s).insert(v)
        },
{
    lemma_first_slot(s, EMPTY_SLOT);
    lemma_holdings_update(s, first_slot(s, EMPTY_SLOT), v);
}

/// Removing an asset takes one occurrence of it out of the holdings.
pub proof fn lemma_holdings_removed(s: Seq<u64>, v: u64)
    ensures
        holdings(with_removed(s, v)) == holdings(s).remove(v),
{
    lemma_first_slot(s, v);
    lemma_holdings_contains(s, v);
    if s.contains(v) {
        lemma_holdings_update(s, first_slot(s, v), EMPTY_SLOT);
        if v == EMPTY_SLOT {
            assert(holdings(s).remove(v) =~= holdings(s));
        }
    } else {
        assert(holdings(s).remove(v) =~= holdings(s));
    }
}

/// A set of at most 20 assets, kept in 20 slots. A slot holds an asset id or is
/// empty (0). An asset is added to the first empty slot and removed from the
/// first slot that holds it; the same id may stand in several slots.
#[derive(Clone, Copy, Debug, PartialEq, Eq)]
pub struct AssetSlots {
    pub slots: [u64; 20],
}

impl View for AssetSlots {
    type V = Seq<u64>;

    open spec fn view(&self) -> Seq<u64> {
        self.slots@
    }
}

impl AssetSlots {
    /// Slots that hold nothing.
    pub fn new() -> (set: AssetSlots)
        ensures
            set@ == Seq::new(20, |i: int| EMPTY_SLOT),
    {
        let set = AssetSlots { slots: [0u64;20] };
        assert(set@ =~= Seq::new(20, |i: int| EMPTY_SLOT));
        set
    }

    /// Reads the slots stored in the 160 bytes of `src` that start at `at`.
    pub fn read(src: &[u8], at: usize) -> (set: AssetSlots)
        requires
            at + 160 <= src.len(),
        ensures
            set@ == slots_from_le(src@.subrange(at as int, at + 160)),
    {
        let mut slots = [0u64;20];
        let mut i: usize = 0;
        while i < 20
            invariant
                i <= 20,
                at + 160 <= src.len(),
                forall|k: int|
                    0 <= k < i ==> slots@[k] == u64_from_le(
                        src@.subrange(at + 8 * k, at + 8 * k + 8),
                    ),
            decreases 20 - i,
        {
            slots[i] = read_u64_le(src, at + 8 * i);
            i += 1;
        }
        proof {
            let part = src@.subrange(at as int, at + 160);
            assert forall|k: int| 0 <= k < 20 implies slots@[k] == slots_from_le(part)[k] by {
                assert(part.subrange(8 * k, 8 * k + 8) =~= src@.subrange(
                    at + 8 * k,
                    at + 8 * k + 8,
                ));
            }
            assert(slots@ =~= slots_from_le(part));
        }
        AssetSlots { slots }
    }

    /// Stores the slots in the 160 bytes of `dst` that start at `at`, and
    /// leaves the other bytes as they were.
    pub fn write(&self, dst: &mut [u8], at: usize)
        requires
            at + 160 <= old(dst).len(),
        ensures
            final(dst)@ == overwrite(old(dst)@, at as int, slots_to_le(self@)),
    {
        let mut i: usize = 0;
        assert(dst@ =~= overwrite(old(dst)@, at as int, slots_to_le(self@.take(0))));
        while i < 20
            invariant
                i <= 20,
                at + 160 <= old(dst).len(),
                dst@ == overwrite(old(dst)@, at as int, slots_to_le(self@.take(i as int))),
            decreases 20 - i,
        {
            write_u64_le(dst, at + 8 * i, self.slots[i]);
            assert(dst@ =~= overwrite(old(dst)@, at as int, slots_to_le(self@.take(i + 1))));
            i += 1;
        }
        assert(self@.take(20) =~= self@);
    }

    /// Index of the first slot that holds `asset_id`, if any slot does.
    pub fn find(&self, asset_id: u64) -> (found: Option<usize>)
        ensures
            match found {
                Some(i) => i < 20 && self@.contains(asset_id) && i == first_slot(self@, asset_id),
                None => !self@.contains(asset_id),
            },
    {
        let mut i: usize = 0;
        while i < 20
            invariant
                i <= 20,
                forall|j: int| 0 <= j < i ==> self@[j] != asset_id,
            decreases 20 - i,
        {
            if self.slots[i] == asset_id {
                proof {
                    lemma_first_slot_is(self@, asset_id, i as int);
                }
                return Some(i);
            }
            i += 1;
        }
        None
    }

    /// Whether some slot holds `asset_id`.
    pub fn contains(&self, asset_id: u64) -> (held: bool)
        ensures
            held == self@.contains(asset_id),
    {
        self.find(asset_id).is_some()
    }

    /// Whether no slot is empty.
    pub fn is_full(&self) -> (full: bool)
        ensures
            full == !self@.contains(EMPTY_SLOT),
    {
        self.find(EMPTY_SLOT).is_none()
    }

    /// Writes `asset_id` into the first empty slot. With no empty slot the
    /// slots stay as they are and the call fails with `CapacityExceeded`.
    pub fn insert(&mut self, asset_id: u64) -> (done: Result<(), EscrowError>)
        ensures
            old(self)@.contains(EMPTY_SLOT) ==> done == Ok::<(), EscrowError>(()) && final(self)@
                == with_added(old(self)@, asset_id),
            !old(self)@.contains(EMPTY_SLOT) ==> done == Err::<(), EscrowError>(
                EscrowError::CapacityExceeded,
            ) && final(self)@ == old(self)@,
    {
        match self.find(EMPTY_SLOT) {
            Some(i) => {
                self.slots[i] = asset_id;
                Ok(())
            },
            None => Err(EscrowError::CapacityExceeded),
        }
    }

    /// Empties the first slot that holds `asset_id` and says whether there was
    /// one. With none the slots stay as they are.
    pub fn remove(&mut self, asset_id: u64) -> (found: bool)
        ensures
            found == old(self)@.contains(asset_id),
            final(self)@ == with_removed(old(self)@, asset_id),
    {
        match self.find(asset_id) {
            Some(i) => {
                self.slots[i] = EMPTY_SLOT;
                true
            },
            None => false,
        }
    }
}

} // verus!
