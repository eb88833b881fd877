use vstd::prelude::*;

verus! {

/// The eight bytes that hold `x`, least significant byte first.
#[verifier::opaque]
pub open spec fn u64_to_le(x: u64) -> Seq<u8> {
    seq![
        (x % 0x100) as u8,
        (x / 0x100 % 0x100) as u8,
        (x / 0x1_0000 % 0x100) as u8,
        (x / 0x100_0000 % 0x100) as u8,
        (x / 0x1_0000_0000 % 0x100) as u8,
        (x / 0x100_0000_0000 % 0x100) as u8,
        (x / 0x1_0000_0000_0000 % 0x100) as u8,
        (x / 0x100_0000_0000_0000 % 0x100) as u8,
    ]
}

/// The number that the first eight bytes of `b` hold, least significant byte
/// first.
#[verifier::opaque]
pub open spec fn u64_from_le(b: Seq<u8>) -> u64 {
    (b[0] + b[1] * 0x100 + b[2] * 0x1_0000 + b[3] * 0x100_0000 + b[4] * 0x1_0000_0000 + b[5]
        * 0x100_0000_0000 + b[6] * 0x1_0000_0000_0000 + b[7] * 0x100_0000_0000_0000) as u64
}

/// The unsigned number with the same 64 bits as `v` in two's complement.
pub open spec fn to_unsigned(v: i64) -> u64 {
    if v >= 0 {
        v as u64
    } else {
        (v + 0x1_0000_0000_0000_0000) as u64
    }
}

/// The signed number with the same 64 bits as `u` in two's complement.
pub open spec fn to_signed(u: u64) -> i64 {
    if u < 0x8000_0000_0000_0000 {
        u as i64
    } else {
        (u - 0x1_0000_0000_0000_0000) as i64
    }
}

/// The eight bytes that hold `v` in two's complement, least significant byte
/// first.
pub open spec fn i64_to_le(v: i64) -> Seq<u8> {
    u64_to_le(to_unsigned(v))
}

/// The signed number that the first eight bytes of `b` hold in two's
/// complement, least significant byte first.
pub open spec fn i64_from_le(b: Seq<u8>) -> i64 {
    to_signed(u64_from_le(b))
}

/// `s` with the bytes from `at` on replaced by `part`, as far as `part` goes.
pub open spec fn overwrite(s: Seq<u8>, at: int, part: Seq<u8>) -> Seq<u8> {
    s.subrange(0, at) + part + s.subrange(at + part.len(), s.len() as int)
}

/// A number is written in eight bytes.
pub broadcast proof fn lemma_u64_to_le_len(x: u64)
    ensures
        #[trigger] u64_to_le(x).len() == 8,
{
    reveal(u64_to_le);
}

/// Reading back what was written gives the number that was written.
pub proof fn lemma_u64_le_round_trip(x: u64)
    ensures
        u64_to_le(x).len() == 8,
        u64_from_le(u64_to_le(x)) == x,
{
    reveal(u64_to_le);
    reveal(u64_from_le);
    let q1 = x / 0x100;
    let q2 = q1 / 0x100;
    let q3 = q2 / 0x100;
    let q4 = q3 / 0x100;
    let q5 = q4 / 0x100;
    let q6 = q5 / 0x100;
    let q7 = q6 / 0x100;
    assert(q2 == x / 0x1_0000);
    assert(q3 == x / 0x100_0000);
    assert(q4 == x / 0x1_0000_0000);
    assert(q5 == x / 0x100_0000_0000);
    assert(q6 == x / 0x1_0000_0000_0000);
    assert(q7 == x / 0x100_0000_0000_0000);
    assert(q7 < 0x100);
    let b = u64_to_le(x);
    assert(b[0] == x % 0x100);
    assert(b[1] == q1 % 0x100);
    assert(b[7] == q7);
    assert(x == b[0] + 0x100 * (b[1] + 0x100 * (b[2] + 0x100 * (b[3] + 0x100 * (b[4] + 0x100 * (b[5]
        + 0x100 * (b[6] + 0x100 * b[7])))))));
}

/// Eight bytes are the only way to write the number they hold.
pub proof fn lemma_u64_le_canonical(b: Seq<u8>)
    requires
        b.len() == 8,
    ensures
        u64_to_le(u64_from_le(b)) == b,
{
    reveal(u64_to_le);
    reveal(u64_from_le);
    let t7: int = b[7] as int;
    let t6: int = b[6] + 0x100 * t7;
    let t5: int = b[5] + 0x100 * t6;
    let t4: int = b[4] + 0x100 * t5;
    let t3: int = b[3] + 0x100 * t4;
    let t2: int = b[2] + 0x100 * t3;
    let t1: int = b[1] + 0x100 * t2;
    let t0: int = b[0] + 0x100 * t1;
    assert(t0 == u64_from_le(b));
    let x = u64_from_le(b);
    assert(x / 0x100 == t1);
    assert(x / 0x1_0000 == t2) by {
        assert(t1 / 0x100 == t2);
    }
    assert(x / 0x100_0000 == t3) by {
        assert(t2 / 0x100 == t3);
    }
    assert(x / 0x1_0000_0000 == t4) by {
        assert(t3 / 0x100 == t4);
    }
    assert(x / 0x100_0000_0000 == t5) by {
        assert(t4 / 0x100 == t5);
    }
    assert(x / 0x1_0000_0000_0000 == t6) by {
        assert(t5 / 0x100 == t6);
    }
    assert(x / 0x100_0000_0000_0000 == t7) by {
        assert(t6 / 0x100 == t7);
    }
    assert(u64_to_le(u64_from_le(b)) =~= b);
}

/// The two readings of 64 bits, signed and unsigned, determine each other.
pub proof fn lemma_twos_complement(v: i64, u: u64)
    ensures
        to_signed(to_unsigned(v)) == v,
        to_unsigned(to_signed(u)) == u,
{
}

/// Reading back what was written gives the number that was written.
pub proof fn lemma_i64_le_round_trip(v: i64)
    ensures
        i64_to_le(v).len() == 8,
        i64_from_le(i64_to_le(v)) == v,
{
    lemma_u64_le_round_trip(to_unsigned(v));
    lemma_twos_complement(v, 0);
}

/// Eight bytes are the only way to write the signed number they hold.
pub proof fn lemma_i64_le_canonical(b: Seq<u8>)
    requires
        b.len() == 8,
    ensures
        i64_to_le(i64_from_le(b)) == b,
{
    lemma_u64_le_canonical(b);
    lemma_twos_complement(0, u64_from_le(b));
}

/// Reads the number stored in the eight bytes of `src` that start at `at`.
pub fn read_u64_le(src: &[u8], at: usize) -> (x: u64)
    requires
        at + 8 <= src.len(),
    ensures
        x == u64_from_le(src@.subrange(at as int, at + 8)),
{
    let b0 = src[at] as u64;
    let b1 = src[at + 1] as u64;
    let b2 = src[at + 2] as u64;
    let b3 = src[at + 3] as u64;
    let b4 = src[at + 4] as u64;
    let b5 = src[at + 5] as u64;
    let b6 = src[at + 6] as u64;
    let b7 = src[at + 7] as u64;
    proof {
        reveal(u64_from_le);
    }
    b0 + b1 * 0x100 + b2 * 0x1_0000 + b3 * 0x100_0000 + b4 * 0x1_0000_0000 + b5 * 0x100_0000_0000
        + b6 * 0x1_0000_0000_0000 + b7 * 0x100_0000_0000_0000
}

/// Stores `x` in the eight bytes of `dst` that start at `at`, and leaves the
/// other bytes as they were.
pub fn write_u64_le(dst: &mut [u8], at: usize, x: u64)
    requires
        at + 8 <= old(dst).len(),
    ensures
        final(dst)@ == overwrite(old(dst)@, at as int, u64_to_le(x)),
{
    dst[at] = (x % 0x100) as u8;
    dst[at + 1] = (x / 0x100 % 0x100) as u8;
    dst[at + 2] = (x / 0x1_0000 % 0x100) as u8;
    dst[at + 3] = (x / 0x100_0000 % 0x100) as u8;
    dst[at + 4] = (x / 0x1_0000_0000 % 0x100) as u8;
    dst[at + 5] = (x / 0x100_0000_0000 % 0x100) as u8;
    dst[at + 6] = (x / 0x1_0000_0000_0000 % 0x100) as u8;
    dst[at + 7] = (x / 0x100_0000_0000_0000 % 0x100) as u8;
    proof {
        reveal(u64_to_le);
    }
    assert(dst@ =~= overwrite(old(dst)@, at as int, u64_to_le(x)));
}

/// Reads the signed number stored in the eight bytes of `src` that start at
/// `at`.
pub fn read_i64_le(src: &[u8], at: usize) -> (v: i64)
    requires
        at + 8 <= src.len(),
    ensures
        v == i64_from_le(src@.subrange(at as int, at + 8)),
{
    let u = read_u64_le(src, at);
    if u < 0x8000_0000_0000_0000 {
        u as i64
    } else {
        ((u - 0x8000_0000_0000_0000) as i64) + i64::MIN
    }
}

/// Stores the signed number `v` in the eight bytes of `dst` that start at
/// `at`, and leaves the other bytes as they were.
pub fn write_i64_le(dst: &mut [u8], at: usize, v: i64)
    requires
        at + 8 <= old(dst).len(),
    ensures
        final(dst)@ == overwrite(old(dst)@, at as int, i64_to_le(v)),
{
    let u: u64 = if v >= 0 {
        v as u64
    } else {
        ((v - i64::MIN) as u64) + 0x8000_0000_0000_0000
    };
    write_u64_le(dst, at, u);
}

} // verus!
