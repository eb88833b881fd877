use crate::endian::overwrite;
use vstd::prelude::*;

verus! {

/// Number of bytes in an identity.
pub const IDENTITY_LEN: usize = 32;

/// The address of a ledger record: 32 opaque bytes. Nothing is assumed of the
/// bytes; two identities are the same when all their bytes agree.
#[derive(Clone, Copy, Debug)]
pub struct Identity {
    pub bytes: [u8; 32],
}

impl View for Identity {
    type V = Seq<u8>;

    open spec fn view(&self) -> Seq<u8> {
        self.bytes@
    }
}

impl PartialEq for Identity {
    fn eq(&self, other: &Self) -> (same: bool) {
        let mut i: usize = 0;
        while i < 32
            invariant
                i <= 32,
                forall|j: int| 0 <= j < i ==> self.bytes[j] == other.bytes[j],
            decreases 32 - i,
        {
            if self.bytes[i] != other.bytes[i] {
                assert(self@[i as int] != other@[i as int]);
                return false;
            }
            i += 1;
        }
        assert(self@ =~= other@);
        true
    }
}

impl Eq for Identity {

}

impl vstd::std_specs::cmp::PartialEqSpecImpl for Identity {
    open spec fn obeys_eq_spec() -> bool {
        true
    }

    open spec fn eq_spec(&self, other: &Self) -> bool {
        self@ == other@
    }
}

impl Identity {
    /// The identity made of the given bytes.
    pub fn new_from_array(bytes: [u8; 32]) -> (id: Identity)
        ensures
            id@ == bytes@,
    {
        Identity { bytes }
    }

    /// The bytes of the identity.
    pub fn to_bytes(&self) -> (bytes: [u8; 32])
        ensures
            bytes@ == self@,
    {
        self.bytes
    }

    /// Reads the identity stored in the 32 bytes of `src` that start at `at`.
    pub fn read(src: &[u8], at: usize) -> (id: Identity)
        requires
            at + 32 <= src.len(),
        ensures
            id@ == src@.subrange(at as int, at + 32),
    {
        let mut bytes = [0u8;32];
        let mut i: usize = 0;
        while i < 32
            invariant
                i <= 32,
                at + 32 <= src.len(),
                forall|j: int| 0 <= j < i ==> bytes[j] == src[at + j],
            decreases 32 - i,
        {
            bytes[i] = src[at + i];
            i += 1;
        }
        assert(bytes@ =~= src@.subrange(at as int, at + 32));
        Identity { bytes }
    }

    /// Stores the identity in the 32 bytes of `dst` that start at `at`, and
    /// leaves the other bytes as they were.
    pub fn write(&self, dst: &mut [u8], at: usize)
        requires
            at + 32 <= old(dst).len(),
        ensures
            final(dst)@ == overwrite(old(dst)@, at as int, self@),
    {
        let mut i: usize = 0;
        while i < 32
            invariant
                i <= 32,
                dst.len() == old(dst).len(),
                at + 32 <= dst.len(),
                forall|j: int| 0 <= j < at ==> dst[j] == old(dst)[j],
                forall|j: int| 0 <= j < i ==> dst[at + j] == self.bytes[j],
                forall|j: int| at + i <= j < dst.len() ==> dst[j] == old(dst)[j],
            decreases 32 - i,
        {
            dst[at + i] = self.bytes[i];
            i += 1;
        }
        assert(dst@ =~= overwrite(old(dst)@, at as int, self@));
    }
}

} // verus!
