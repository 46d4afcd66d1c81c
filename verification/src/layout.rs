//! The binary layout of record fields: fixed-width little-endian integers,
//! raw 32-byte identities, and byte strings behind a 4-byte length.

use crate::address::Address;
use vstd::prelude::*;

verus! {

/// A 32-bit integer as 4 little-endian bytes.
#[verifier::opaque]
pub open spec fn u32_le(x: u32) -> Seq<u8> {
    seq![
        (x % 256) as u8,
        (x / 0x100 % 256) as u8,
        (x / 0x1_0000 % 256) as u8,
        (x / 0x100_0000 % 256) as u8,
    ]
}

/// The 32-bit integer that 4 little-endian bytes stand for.
#[verifier::opaque]
pub open spec fn u32_from_le(b: Seq<u8>) -> u32
    recommends
        b.len() == 4,
{
    (b[0] as int + 0x100 * (b[1] as int) + 0x1_0000 * (b[2] as int) + 0x100_0000 * (b[3] as int)) as u32
}

/// A 64-bit integer as 8 little-endian bytes.
#[verifier::opaque]
pub open spec fn u64_le(x: u64) -> Seq<u8> {
    u32_le((x % 0x1_0000_0000) as u32) + u32_le((x / 0x1_0000_0000) as u32)
}

/// The 64-bit integer that 8 little-endian bytes stand for.
#[verifier::opaque]
pub open spec fn u64_from_le(b: Seq<u8>) -> u64
    recommends
        b.len() == 8,
{
    (u32_from_le(b.subrange(0, 4)) as int + 0x1_0000_0000 * (u32_from_le(b.subrange(4, 8)) as int)) as u64
}

/// A byte string as its length in 4 little-endian bytes followed by the bytes.
pub open spec fn prefixed(s: Seq<u8>) -> Seq<u8>
    recommends
        s.len() <= u32::MAX,
{
    u32_le(s.len() as u32) + s
}

/// Reading back the 4 bytes of a 32-bit integer gives the integer.
pub proof fn lemma_u32_round_trip(x: u32)
    ensures
        u32_le(x).len() == 4,
        u32_from_le(u32_le(x)) == x,
{
    reveal(u32_le);
    reveal(u32_from_le);
}

/// Reading back the 8 bytes of a 64-bit integer gives the integer.
pub proof fn lemma_u64_round_trip(x: u64)
    ensures
        u64_le(x).len() == 8,
        u64_from_le(u64_le(x)) == x,
{
    reveal(u64_le);
    reveal(u64_from_le);
    let lo = (x % 0x1_0000_0000) as u32;
    let hi = (x / 0x1_0000_0000) as u32;
    lemma_u32_round_trip(lo);
    lemma_u32_round_trip(hi);
    assert(u64_le(x).subrange(0, 4) =~= u32_le(lo));
    assert(u64_le(x).subrange(4, 8) =~= u32_le(hi));
}

/// Appends the 4 little-endian bytes of `x`.
pub fn put_u32(out: &mut Vec<u8>, x: u32)
    ensures
        final(out)@ == old(out)@ + u32_le(x),
{
    out.push((x % 256) as u8);
    out.push((x / 0x100 % 256) as u8);
    out.push((x / 0x1_0000 % 256) as u8);
    out.push((x / 0x100_0000 % 256) as u8);
    proof {
        reveal(u32_le);
    }
    assert(out@ =~= old(out)@ + u32_le(x));
}

/// Appends the 8 little-endian bytes of `x`.
pub fn put_u64(out: &mut Vec<u8>, x: u64)
    ensures
        final(out)@ == old(out)@ + u64_le(x),
{
    put_u32(out, (x % 0x1_0000_0000) as u32);
    put_u32(out, (x / 0x1_0000_0000) as u32);
    proof {
        reveal(u64_le);
    }
    assert(out@ =~= old(out)@ + u64_le(x));
}

/// Reads the 32-bit integer held in the 4 bytes from `at` on.
pub fn get_u32(data: &[u8], at: usize) -> (x: u32)
    requires
        at + 4 <= data@.len(),
    ensures
        x == u32_from_le(data@.subrange(at as int, at + 4)),
{
    let b0: u32 = data[at] as u32;
    let b1: u32 = data[at + 1] as u32;
    let b2: u32 = data[at + 2] as u32;
    let b3: u32 = data[at + 3] as u32;
    proof {
        reveal(u32_from_le);
    }
    b0 + 0x100 * b1 + 0x1_0000 * b2 + 0x100_0000 * b3
}

/// Reads the 64-bit integer held in the 8 bytes from `at` on.
pub fn get_u64(data: &[u8], at: usize) -> (x: u64)
    requires
        at + 8 <= data@.len(),
    ensures
        x == u64_from_le(data@.subrange(at as int, at + 8)),
{
    let len: usize = data.len();
    let lo: u64 = get_u32(data, at) as u64;
    let hi: u64 = get_u32(data, at + 4) as u64;
    proof {
        reveal(u64_from_le);
        let b = data@.subrange(at as int, at + 8);
        assert(b.subrange(0, 4) =~= data@.subrange(at as int, at + 4));
        assert(b.subrange(4, 8) =~= data@.subrange(at + 4, at + 8));
    }
    lo + 0x1_0000_0000 * hi
}

/// Appends the bytes of `s`.
pub fn put_raw(out: &mut Vec<u8>, s: &[u8])
    ensures
        final(out)@ == old(out)@ + s@,
{
    let mut i: usize = 0;
    while i < s.len()
        invariant
            i <= s@.len(),
            out@ == old(out)@ + s@.subrange(0, i as int),
        decreases s@.len() - i,
    {
        out.push(s[i]);
        assert(out@ =~= old(out)@ + s@.subrange(0, i + 1));
        i += 1;
    }
    assert(s@.subrange(0, i as int) =~= s@);
}

/// Appends the 32 bytes of an identity.
pub fn put_address(out: &mut Vec<u8>, a: &Address)
    ensures
        final(out)@ == old(out)@ + a@,
{
    let mut i: usize = 0;
    while i < 32
        invariant
            i <= 32,
            out@ == old(out)@ + a.bytes@.subrange(0, i as int),
        decreases 32 - i,
    {
        out.push(a.bytes[i]);
        assert(out@ =~= old(out)@ + a.bytes@.subrange(0, i + 1));
        i += 1;
    }
    assert(a.bytes@.subrange(0, 32) =~= a@);
}

/// Appends a byte string behind its 4-byte length.
pub fn put_bytes(out: &mut Vec<u8>, s: &[u8])
    requires
        s@.len() <= u32::MAX,
    ensures
        final(out)@ == old(out)@ + prefixed(s@),
{
    put_u32(out, s.len() as u32);
    put_raw(out, s);
    assert(out@ =~= old(out)@ + prefixed(s@));
}

/// Copies the bytes from `from` up to `to`.
pub fn get_raw(data: &[u8], from: usize, to: usize) -> (v: Vec<u8>)
    requires
        from <= to <= data@.len(),
    ensures
        v@ == data@.subrange(from as int, to as int),
{
    let mut v: Vec<u8> = Vec::new();
    let mut i: usize = from;
    while i < to
        invariant
            from <= i <= to <= data@.len(),
            v@ == data@.subrange(from as int, i as int),
        decreases to - i,
    {
        v.push(data[i]);
        assert(v@ =~= data@.subrange(from as int, i + 1));
        i += 1;
    }
    v
}

/// Reads the identity held in the 32 bytes from `at` on.
pub fn get_address(data: &[u8], at: usize) -> (a: Address)
    requires
        at + 32 <= data@.len(),
    ensures
        a@ == data@.subrange(at as int, at + 32),
{
    let len: usize = data.len();
    let mut bytes: [u8; 32] = [0u8; 32];
    let mut i: usize = 0;
    while i < 32
        invariant
            i <= 32,
            at + 32 <= len,
            len == data@.len(),
            forall|k: int| 0 <= k < i ==> bytes@[k] == data@[at + k],
        decreases 32 - i,
    {
        bytes[i] = data[at + i];
        i += 1;
    }
    assert(bytes@ =~= data@.subrange(at as int, at + 32));
    Address { bytes }
}

} // verus!
