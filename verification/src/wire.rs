//! Unsigned 32-bit integers as four little-endian bytes.

use vstd::prelude::*;

verus! {

/// Number of bytes that an encoded `u32` occupies.
pub const U32_WIDTH: usize = 4;

/// The integer that the first four bytes of `bytes` denote in little-endian order:
/// the byte at offset `i` has weight `256^i`.
pub open spec fn le_value(bytes: Seq<u8>) -> u32
    recommends
        bytes.len() >= 4,
{
    (bytes[0] + 256 * bytes[1] + 65536 * bytes[2] + 16777216 * bytes[3]) as u32
}

/// The four bytes that denote `value` in little-endian order.
pub open spec fn le_bytes(value: u32) -> Seq<u8> {
    seq![
        (value % 256) as u8,
        (value / 256 % 256) as u8,
        (value / 65536 % 256) as u8,
        (value / 16777216) as u8,
    ]
}

/// What reading a `u32` from the front of `bytes` yields: the value of the first four
/// bytes, or nothing where fewer than four are there. Bytes after the fourth play no part.
pub open spec fn spec_read_u32_le(bytes: Seq<u8>) -> Option<u32> {
    if bytes.len() >= 4 {
        Some(le_value(bytes))
    } else {
        None
    }
}

/// What writing `value` to the front of `region` leaves there: the four bytes of `value`
/// followed by whatever `region` held from offset 4 on, or nothing where `region` has no
/// room for four bytes.
pub open spec fn spec_write_u32_le(value: u32, region: Seq<u8>) -> Option<Seq<u8>> {
    if region.len() >= 4 {
        Some(le_bytes(value) + region.skip(4))
    } else {
        None
    }
}

/// Reads a `u32` from the first four bytes of `bytes`.
pub fn read_u32_le(bytes: &[u8]) -> (value: Option<u32>)
    ensures
        value == spec_read_u32_le(bytes@),
{
    if bytes.len() < U32_WIDTH {
        return None;
    }
    let b0: u32 = bytes[0] as u32;
    let b1: u32 = bytes[1] as u32;
    let b2: u32 = bytes[2] as u32;
    let b3: u32 = bytes[3] as u32;
    Some(b0 + 256 * b1 + 65536 * b2 + 16777216 * b3)
}

/// Writes `value` over the first four bytes of `region` and reports whether it did.
/// A region shorter than four bytes is left as it was.
pub fn write_u32_le(value: u32, region: &mut [u8]) -> (written: bool)
    ensures
        written == (old(region)@.len() >= 4),
        written ==> Some(final(region)@) == spec_write_u32_le(value, old(region)@),
        !written ==> final(region)@ == old(region)@,
{
    if region.len() < U32_WIDTH {
        return false;
    }
    region[0] = (value % 256) as u8;
    region[1] = (value / 256 % 256) as u8;
    region[2] = (value / 65536 % 256) as u8;
    region[3] = (value / 16777216) as u8;
    true
}

/// The bytes of a value denote that value.
pub proof fn lemma_value_of_bytes(value: u32)
    ensures
        le_bytes(value).len() == 4,
        le_value(le_bytes(value)) == value,
{
    let q1 = value / 256;
    let q2 = value / 65536;
    let q3 = value / 16777216;
    assert(q2 == q1 / 256);
    assert(q3 == q2 / 256);
    assert(value == 256 * q1 + value % 256);
    assert(q1 == 256 * q2 + q1 % 256);
    assert(q2 == 256 * q3 + q2 % 256);
}

/// The value that four bytes denote has these four bytes.
pub proof fn lemma_bytes_of_value(bytes: Seq<u8>)
    requires
        bytes.len() >= 4,
    ensures
        le_bytes(le_value(bytes)) == bytes.take(4),
{
    let value = le_value(bytes);
    let q1 = bytes[1] + 256 * bytes[2] + 65536 * bytes[3];
    let q2 = bytes[2] + 256 * bytes[3];
    let q3 = bytes[3] as int;
    assert(value == 256 * q1 + bytes[0]);
    assert(value / 256 == q1 && value % 256 == bytes[0]);
    assert(q1 == 256 * q2 + bytes[1]);
    assert(q1 / 256 == q2 && q1 % 256 == bytes[1]);
    assert(q2 == 256 * q3 + bytes[2]);
    assert(q2 / 256 == q3 && q2 % 256 == bytes[2]);
    assert(value / 65536 == q2);
    assert(value / 16777216 == q3);
    assert(le_bytes(value) =~= bytes.take(4));
}

/// Reading back what was written gives the value that was written, whatever the region
/// held before and however long it is beyond its first four bytes.
pub proof fn lemma_write_then_read(value: u32, region: Seq<u8>)
    requires
        region.len() >= 4,
    ensures
        spec_write_u32_le(value, region) is Some,
        spec_read_u32_le(spec_write_u32_le(value, region)->Some_0) == Some(value),
{
    let written = le_bytes(value) + region.skip(4);
    lemma_value_of_bytes(value);
    assert(written.take(4) =~= le_bytes(value));
    lemma_value_ignores_tail(written);
}

/// Writing the value that a region already denotes changes nothing in it.
pub proof fn lemma_read_then_write(region: Seq<u8>)
    requires
        region.len() >= 4,
    ensures
        spec_write_u32_le(le_value(region), region) == Some(region),
{
    lemma_bytes_of_value(region);
    assert(region.take(4) + region.skip(4) =~= region);
}

/// A write keeps the region's length and every byte from offset 4 on.
pub proof fn lemma_write_keeps_tail(value: u32, region: Seq<u8>)
    requires
        region.len() >= 4,
    ensures
        spec_write_u32_le(value, region)->Some_0.len() == region.len(),
        spec_write_u32_le(value, region)->Some_0.take(4) == le_bytes(value),
        spec_write_u32_le(value, region)->Some_0.skip(4) == region.skip(4),
{
    let after = le_bytes(value) + region.skip(4);
    assert(le_bytes(value).len() == 4);
    assert(after.take(4) =~= le_bytes(value));
    assert(after.skip(4) =~= region.skip(4));
}

/// Only the first four bytes count towards the value.
pub proof fn lemma_value_ignores_tail(bytes: Seq<u8>)
    requires
        bytes.len() >= 4,
    ensures
        le_value(bytes) == le_value(bytes.take(4)),
{
}

} // verus!
