//! Byte lists, and numbers stored in them.

use vstd::prelude::*;

verus! {

/// Appends bytes to a list.
pub fn extend(bytes: &mut Vec<u8>, more: &[u8])
    ensures
        final(bytes)@ == old(bytes)@ + more@,
{
    let ghost before = bytes@;
    bytes.extend_from_slice(more);
    assert(bytes@ =~= before + more@);
}

/// A copy of the bytes from `from` up to `to`.
pub fn copy_between(bytes: &[u8], from: usize, to: usize) -> (part: Vec<u8>)
    requires
        from <= to <= bytes@.len(),
    ensures
        part@ == bytes@.subrange(from as int, to as int),
{
    let mut part: Vec<u8> = Vec::new();
    let mut i: usize = from;
    while i < to
        invariant
            from <= i <= to <= bytes@.len(),
            part@ == bytes@.subrange(from as int, i as int),
        decreases to - i,
    {
        part.push(bytes[i]);
        i += 1;
        assert(part@ =~= bytes@.subrange(from as int, i as int));
    }
    part
}

/// Appends as much of the bytes as the limit leaves room for.
pub open spec fn append_bounded(before: Seq<u8>, limit: nat, more: Seq<u8>) -> Seq<u8> {
    let room = if before.len() < limit {
        limit - before.len()
    } else {
        0
    };
    if more.len() <= room {
        before + more
    } else {
        before + more.take(room)
    }
}

/// The number stored in `count` bytes at `at`, the least significant first.
pub open spec fn little_endian(bytes: Seq<u8>, at: int, count: nat) -> nat
    decreases count,
{
    if count == 0 {
        0
    } else {
        bytes[at] as nat + 256 * little_endian(bytes, at + 1, (count - 1) as nat)
    }
}

/// The number stored in `count` bytes at `at`, the most significant first.
pub open spec fn big_endian(bytes: Seq<u8>, at: int, count: nat) -> nat
    decreases count,
{
    if count == 0 {
        0
    } else {
        256 * big_endian(bytes, at, (count - 1) as nat) + bytes[at + count - 1] as nat
    }
}

pub fn le_u16(bytes: &[u8], at: usize) -> (value: u16)
    requires
        at + 2 <= bytes@.len(),
    ensures
        value == little_endian(bytes@, at as int, 2),
{
    proof {
        reveal_with_fuel(little_endian, 3);
    }
    bytes[at] as u16 + 256 * bytes[at + 1] as u16
}

pub fn le_u32(bytes: &[u8], at: usize) -> (value: u32)
    requires
        at + 4 <= bytes@.len(),
    ensures
        value == little_endian(bytes@, at as int, 4),
{
    proof {
        reveal_with_fuel(little_endian, 5);
    }
    bytes[at] as u32 + 256 * (bytes[at + 1] as u32 + 256 * (bytes[at + 2] as u32 + 256
        * bytes[at + 3] as u32))
}

pub fn le_u64(bytes: &[u8], at: usize) -> (value: u64)
    requires
        at + 8 <= bytes@.len(),
    ensures
        value == little_endian(bytes@, at as int, 8),
{
    proof {
        reveal_with_fuel(little_endian, 9);
        assert(bytes.len() == bytes@.len());
    }
    let low: u32 = le_u32(bytes, at);
    let high: u32 = le_u32(bytes, at + 4);
    low as u64 + 0x1_0000_0000 * high as u64
}

pub fn be_u32(bytes: &[u8], at: usize) -> (value: u32)
    requires
        at + 4 <= bytes@.len(),
    ensures
        value == big_endian(bytes@, at as int, 4),
{
    proof {
        reveal_with_fuel(big_endian, 5);
    }
    256 * (256 * (256 * bytes[at] as u32 + bytes[at + 1] as u32) + bytes[at + 2] as u32) + bytes[at
        + 3] as u32
}

pub fn be_u64(bytes: &[u8], at: usize) -> (value: u64)
    requires
        at + 8 <= bytes@.len(),
    ensures
        value == big_endian(bytes@, at as int, 8),
{
    proof {
        reveal_with_fuel(big_endian, 9);
        assert(bytes.len() == bytes@.len());
    }
    let high: u32 = be_u32(bytes, at);
    let low: u32 = be_u32(bytes, at + 4);
    high as u64 * 0x1_0000_0000 + low as u64
}

/// Stored numbers are sums of their bytes, each 256 times the one of lesser
/// weight.
pub proof fn law_stored_numbers_weigh_their_bytes(bytes: Seq<u8>, at: int)
    ensures
        little_endian(bytes, at, 2) == bytes[at] + 0x100 * bytes[at + 1],
        little_endian(bytes, at, 4) == bytes[at] + 0x100 * bytes[at + 1] + 0x1_0000 * bytes[at + 2]
            + 0x100_0000 * bytes[at + 3],
        little_endian(bytes, at, 8) == little_endian(bytes, at, 4) + 0x1_0000_0000 * little_endian(
            bytes,
            at + 4,
            4,
        ),
        big_endian(bytes, at, 2) == 0x100 * bytes[at] + bytes[at + 1],
        big_endian(bytes, at, 4) == 0x100_0000 * bytes[at] + 0x1_0000 * bytes[at + 1] + 0x100
            * bytes[at + 2] + bytes[at + 3],
        big_endian(bytes, at, 8) == 0x1_0000_0000 * big_endian(bytes, at, 4) + big_endian(
            bytes,
            at + 4,
            4,
        ),
{
    reveal_with_fuel(little_endian, 9);
    reveal_with_fuel(big_endian, 9);
}

} // verus!
