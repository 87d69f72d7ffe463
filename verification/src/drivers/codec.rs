use crate::drivers::SENSOR_SETTINGS_PARTITION_SIZE;
use vstd::prelude::*;

verus! {

/// The 16-bit number that the first two bytes of `bytes` spell, least
/// significant byte first.
pub open spec fn u16_from_le(bytes: Seq<u8>) -> u16 {
    (bytes[0] + 0x100 * bytes[1]) as u16
}

/// The 32-bit number that the first four bytes of `bytes` spell, least
/// significant byte first.
#[verifier::opaque]
pub open spec fn u32_from_le(bytes: Seq<u8>) -> u32 {
    (u16_from_le(bytes.subrange(0, 2)) + 0x1_0000 * u16_from_le(bytes.subrange(2, 4))) as u32
}

/// The 64-bit number that the first eight bytes of `bytes` spell, least
/// significant byte first.
#[verifier::opaque]
pub open spec fn u64_from_le(bytes: Seq<u8>) -> u64 {
    (u32_from_le(bytes.subrange(0, 4)) + 0x1_0000_0000 * u32_from_le(bytes.subrange(4, 8))) as u64
}

/// The two bytes that spell `x`, least significant first.
pub open spec fn u16_to_le(x: u16) -> Seq<u8> {
    seq![(x % 0x100) as u8, (x / 0x100) as u8]
}

/// The four bytes that spell `x`, least significant first.
#[verifier::opaque]
pub open spec fn u32_to_le(x: u32) -> Seq<u8> {
    u16_to_le((x % 0x1_0000) as u16) + u16_to_le((x / 0x1_0000) as u16)
}

/// The eight bytes that spell `x`, least significant first.
#[verifier::opaque]
pub open spec fn u64_to_le(x: u64) -> Seq<u8> {
    u32_to_le((x % 0x1_0000_0000) as u32) + u32_to_le((x / 0x1_0000_0000) as u32)
}

/// `count` reserved bytes, all zero.
pub open spec fn reserved(count: nat) -> Seq<u8> {
    Seq::new(count, |i: int| 0u8)
}

/// A 16-bit number is read back from the two bytes that spell it.
pub proof fn lemma_u16_value_round_trip(x: u16)
    ensures
        u16_to_le(x).len() == 2,
        u16_from_le(u16_to_le(x)) == x,
{
}

/// Two bytes are the spelling of the number that they spell.
pub proof fn lemma_u16_bytes_round_trip(bytes: Seq<u8>)
    requires
        bytes.len() == 2,
    ensures
        u16_to_le(u16_from_le(bytes)) == bytes,
{
    assert(u16_to_le(u16_from_le(bytes)) =~= bytes);
}

/// A 32-bit number is read back from the four bytes that spell it.
pub proof fn lemma_u32_value_round_trip(x: u32)
    ensures
        u32_to_le(x).len() == 4,
        u32_from_le(u32_to_le(x)) == x,
{
    reveal(u32_to_le);
    reveal(u32_from_le);
    let lo = (x % 0x1_0000) as u16;
    let hi = (x / 0x1_0000) as u16;
    lemma_u16_value_round_trip(lo);
    lemma_u16_value_round_trip(hi);
    assert(u32_to_le(x).subrange(0, 2) =~= u16_to_le(lo));
    assert(u32_to_le(x).subrange(2, 4) =~= u16_to_le(hi));
}

/// Four bytes are the spelling of the number that they spell.
pub proof fn lemma_u32_bytes_round_trip(bytes: Seq<u8>)
    requires
        bytes.len() == 4,
    ensures
        u32_to_le(u32_from_le(bytes)) == bytes,
{
    reveal(u32_to_le);
    reveal(u32_from_le);
    let lo = u16_from_le(bytes.subrange(0, 2));
    let hi = u16_from_le(bytes.subrange(2, 4));
    let x = u32_from_le(bytes);
    assert(x == lo + 0x1_0000 * hi);
    assert((x % 0x1_0000) as u16 == lo);
    assert((x / 0x1_0000) as u16 == hi);
    lemma_u16_bytes_round_trip(bytes.subrange(0, 2));
    lemma_u16_bytes_round_trip(bytes.subrange(2, 4));
    assert(bytes.subrange(0, 2) + bytes.subrange(2, 4) =~= bytes);
}

/// A 64-bit number is read back from the eight bytes that spell it.
pub proof fn lemma_u64_value_round_trip(x: u64)
    ensures
        u64_to_le(x).len() == 8,
        u64_from_le(u64_to_le(x)) == x,
{
    reveal(u64_to_le);
    reveal(u64_from_le);
    let lo = (x % 0x1_0000_0000) as u32;
    let hi = (x / 0x1_0000_0000) as u32;
    lemma_u32_value_round_trip(lo);
    lemma_u32_value_round_trip(hi);
    assert(u64_to_le(x).subrange(0, 4) =~= u32_to_le(lo));
    assert(u64_to_le(x).subrange(4, 8) =~= u32_to_le(hi));
}

/// Eight bytes are the spelling of the number that they spell.
pub proof fn lemma_u64_bytes_round_trip(bytes: Seq<u8>)
    requires
        bytes.len() == 8,
    ensures
        u64_to_le(u64_from_le(bytes)) == bytes,
{
    reveal(u64_to_le);
    reveal(u64_from_le);
    let lo = u32_from_le(bytes.subrange(0, 4));
    let hi = u32_from_le(bytes.subrange(4, 8));
    let x = u64_from_le(bytes);
    assert(x == lo + 0x1_0000_0000 * hi);
    assert((x % 0x1_0000_0000) as u32 == lo);
    assert((x / 0x1_0000_0000) as u32 == hi);
    lemma_u32_bytes_round_trip(bytes.subrange(0, 4));
    lemma_u32_bytes_round_trip(bytes.subrange(4, 8));
    assert(bytes.subrange(0, 4) + bytes.subrange(4, 8) =~= bytes);
}

/// Reads the 16-bit number stored at offset `at` of a partition.
pub(crate) fn read_u16(bytes: &[u8; SENSOR_SETTINGS_PARTITION_SIZE], at: usize) -> (x: u16)
    requires
        at + 2 <= SENSOR_SETTINGS_PARTITION_SIZE,
    ensures
        x == u16_from_le(bytes@.subrange(at as int, at + 2)),
{
    let lo: u16 = bytes[at] as u16;
    let hi: u16 = bytes[at + 1] as u16;
    lo + 0x100 * hi
}

/// Reads the 32-bit number stored at offset `at` of a partition.
pub(crate) fn read_u32(bytes: &[u8; SENSOR_SETTINGS_PARTITION_SIZE], at: usize) -> (x: u32)
    requires
        at + 4 <= SENSOR_SETTINGS_PARTITION_SIZE,
    ensures
        x == u32_from_le(bytes@.subrange(at as int, at + 4)),
{
    proof {
        reveal(u32_from_le);
    }
    let lo: u32 = read_u16(bytes, at) as u32;
    let hi: u32 = read_u16(bytes, at + 2) as u32;
    proof {
        let field = bytes@.subrange(at as int, at + 4);
        assert(field.subrange(0, 2) =~= bytes@.subrange(at as int, at + 2));
        assert(field.subrange(2, 4) =~= bytes@.subrange(at + 2, at + 4));
    }
    lo + 0x1_0000 * hi
}

/// Reads the 64-bit number stored at offset `at` of a partition.
pub(crate) fn read_u64(bytes: &[u8; SENSOR_SETTINGS_PARTITION_SIZE], at: usize) -> (x: u64)
    requires
        at + 8 <= SENSOR_SETTINGS_PARTITION_SIZE,
    ensures
        x == u64_from_le(bytes@.subrange(at as int, at + 8)),
{
    proof {
        reveal(u64_from_le);
    }
    let lo: u64 = read_u32(bytes, at) as u64;
    let hi: u64 = read_u32(bytes, at + 4) as u64;
    proof {
        let field = bytes@.subrange(at as int, at + 8);
        assert(field.subrange(0, 4) =~= bytes@.subrange(at as int, at + 4));
        assert(field.subrange(4, 8) =~= bytes@.subrange(at + 4, at + 8));
    }
    lo + 0x1_0000_0000 * hi
}

/// Copies the `N` bytes stored at offset `at` of a partition.
pub(crate) fn read_bytes<const N: usize>(
    bytes: &[u8; SENSOR_SETTINGS_PARTITION_SIZE],
    at: usize,
) -> (field: [u8; N])
    requires
        at + N <= SENSOR_SETTINGS_PARTITION_SIZE,
    ensures
        field@ == bytes@.subrange(at as int, at + N),
{
    let mut field = [0u8; N];
    let mut i: usize = 0;
    while i < N
        invariant
            i <= N,
            at + N <= SENSOR_SETTINGS_PARTITION_SIZE,
            forall|j: int| 0 <= j < i ==> field@[j] == bytes@[at + j],
        decreases N - i,
    {
        field[i] = bytes[at + i];
        i = i + 1;
    }
    assert(field@ =~= bytes@.subrange(at as int, at + N));
    field
}

/// Stores `x` at offset `at` of a partition, least significant byte first.
pub(crate) fn write_u16(bytes: &mut [u8; SENSOR_SETTINGS_PARTITION_SIZE], at: usize, x: u16)
    requires
        at + 2 <= SENSOR_SETTINGS_PARTITION_SIZE,
    ensures
        final(bytes)@ == old(bytes)@.subrange(0, at as int) + u16_to_le(x) + old(bytes)@.subrange(
            at + 2,
            SENSOR_SETTINGS_PARTITION_SIZE as int,
        ),
{
    bytes[at] = (x % 0x100) as u8;
    bytes[at + 1] = (x / 0x100) as u8;
    assert(bytes@ =~= old(bytes)@.subrange(0, at as int) + u16_to_le(x) + old(bytes)@.subrange(
        at + 2,
        SENSOR_SETTINGS_PARTITION_SIZE as int,
    ));
}

/// Stores `x` at offset `at` of a partition, least significant byte first.
pub(crate) fn write_u32(bytes: &mut [u8; SENSOR_SETTINGS_PARTITION_SIZE], at: usize, x: u32)
    requires
        at + 4 <= SENSOR_SETTINGS_PARTITION_SIZE,
    ensures
        final(bytes)@ == old(bytes)@.subrange(0, at as int) + u32_to_le(x) + old(bytes)@.subrange(
            at + 4,
            SENSOR_SETTINGS_PARTITION_SIZE as int,
        ),
{
    proof {
        reveal(u32_to_le);
    }
    write_u16(bytes, at, (x % 0x1_0000) as u16);
    write_u16(bytes, at + 2, (x / 0x1_0000) as u16);
    assert(bytes@ =~= old(bytes)@.subrange(0, at as int) + u32_to_le(x) + old(bytes)@.subrange(
        at + 4,
        SENSOR_SETTINGS_PARTITION_SIZE as int,
    ));
}

/// Stores `x` at offset `at` of a partition, least significant byte first.
pub(crate) fn write_u64(bytes: &mut [u8; SENSOR_SETTINGS_PARTITION_SIZE], at: usize, x: u64)
    requires
        at + 8 <= SENSOR_SETTINGS_PARTITION_SIZE,
    ensures
        final(bytes)@ == old(bytes)@.subrange(0, at as int) + u64_to_le(x) + old(bytes)@.subrange(
            at + 8,
            SENSOR_SETTINGS_PARTITION_SIZE as int,
        ),
{
    proof {
        reveal(u64_to_le);
    }
    write_u32(bytes, at, (x % 0x1_0000_0000) as u32);
    write_u32(bytes, at + 4, (x / 0x1_0000_0000) as u32);
    assert(bytes@ =~= old(bytes)@.subrange(0, at as int) + u64_to_le(x) + old(bytes)@.subrange(
        at + 8,
        SENSOR_SETTINGS_PARTITION_SIZE as int,
    ));
}

/// Stores the `N` bytes of `field` at offset `at` of a partition.
pub(crate) fn write_bytes<const N: usize>(
    bytes: &mut [u8; SENSOR_SETTINGS_PARTITION_SIZE],
    at: usize,
    field: &[u8; N],
)
    requires
        at + N <= SENSOR_SETTINGS_PARTITION_SIZE,
    ensures
        final(bytes)@ == old(bytes)@.subrange(0, at as int) + field@ + old(bytes)@.subrange(
            at + N,
            SENSOR_SETTINGS_PARTITION_SIZE as int,
        ),
{
    let mut i: usize = 0;
    while i < N
        invariant
            i <= N,
            at + N <= SENSOR_SETTINGS_PARTITION_SIZE,
            forall|j: int| 0 <= j < at ==> bytes@[j] == old(bytes)@[j],
            forall|j: int| 0 <= j < i ==> bytes@[at + j] == field@[j],
            forall|j: int| at + i <= j < SENSOR_SETTINGS_PARTITION_SIZE ==> bytes@[j] == old(bytes)@[j],
        decreases N - i,
    {
        bytes[at + i] = field[i];
        i = i + 1;
    }
    assert(bytes@ =~= old(bytes)@.subrange(0, at as int) + field@ + old(bytes)@.subrange(
        at + N,
        SENSOR_SETTINGS_PARTITION_SIZE as int,
    ));
}

} // verus!
