//! Big-endian integers as bytes.
use vstd::prelude::*;

verus! {

/// The two bytes of a number, the high one first.
pub open spec fn be16(value: u16) -> Seq<u8> {
    seq![(value / 256) as u8, (value % 256) as u8]
}

/// The four bytes of a number, the high one first.
pub open spec fn be32(value: u32) -> Seq<u8> {
    seq![
        (value / 0x100_0000) as u8,
        (value / 0x1_0000 % 256) as u8,
        (value / 0x100 % 256) as u8,
        (value % 256) as u8,
    ]
}

/// The eight bytes of a number, the high one first.
pub open spec fn be64(value: u64) -> Seq<u8> {
    be32((value / 0x1_0000_0000) as u32) + be32((value % 0x1_0000_0000) as u32)
}

/// The number that two bytes hold.
pub open spec fn from_be16(high: u8, low: u8) -> u16 {
    (high * 256 + low) as u16
}

/// The number that four bytes hold.
pub open spec fn from_be32(a: u8, b: u8, c: u8, d: u8) -> u32 {
    (a * 0x100_0000 + b * 0x1_0000 + c * 0x100 + d) as u32
}

/// The number that the four bytes of `bytes` from `at` on hold.
pub open spec fn be32_at(bytes: Seq<u8>, at: int) -> u32 {
    from_be32(bytes[at], bytes[at + 1], bytes[at + 2], bytes[at + 3])
}

/// The number that the two bytes of `bytes` from `at` on hold.
pub open spec fn be16_at(bytes: Seq<u8>, at: int) -> u16 {
    from_be16(bytes[at], bytes[at + 1])
}

/// Reading two bytes gives back the number that was written.
pub proof fn lemma_be16(value: u16)
    ensures
        be16(value).len() == 2,
        from_be16(be16(value)[0], be16(value)[1]) == value,
        be16(value)[0] * 256 + be16(value)[1] == value,
{
}

/// Reading four bytes gives back the number that was written.
pub proof fn lemma_be32(value: u32)
    ensures
        be32(value).len() == 4,
        from_be32(be32(value)[0], be32(value)[1], be32(value)[2], be32(value)[3]) == value,
{
}

/// The number that two bytes hold.
pub fn read_be16(high: u8, low: u8) -> (value: u16)
    ensures
        value == from_be16(high, low),
        value == high * 256 + low,
{
    high as u16 * 256 + low as u16
}

/// The number that four bytes hold.
pub fn read_be32(a: u8, b: u8, c: u8, d: u8) -> (value: u32)
    ensures
        value == from_be32(a, b, c, d),
{
    a as u32 * 0x100_0000 + b as u32 * 0x1_0000 + c as u32 * 0x100 + d as u32
}

/// The two bytes of a number.
pub fn to_be16(value: u16) -> (bytes: [u8; 2])
    ensures
        bytes@ == be16(value),
{
    let bytes: [u8; 2] = [(value / 256) as u8, (value % 256) as u8];
    assert(bytes@ =~= be16(value));
    bytes
}

/// The four bytes of a number.
pub fn to_be32(value: u32) -> (bytes: [u8; 4])
    ensures
        bytes@ == be32(value),
{
    let bytes: [u8; 4] = [
        (value / 0x100_0000) as u8,
        (value / 0x1_0000 % 256) as u8,
        (value / 0x100 % 256) as u8,
        (value % 256) as u8,
    ];
    assert(bytes@ =~= be32(value));
    bytes
}

/// The sixteen bytes of a number, the high one first.
pub open spec fn be128(value: u128) -> Seq<u8> {
    be64((value / 0x1_0000_0000_0000_0000) as u64) + be64((value % 0x1_0000_0000_0000_0000) as u64)
}

/// The eight bytes of a number.
pub fn to_be64(value: u64) -> (bytes: [u8; 8])
    ensures
        bytes@ == be64(value),
{
    let high: [u8; 4] = to_be32((value / 0x1_0000_0000) as u32);
    let low: [u8; 4] = to_be32((value % 0x1_0000_0000) as u32);
    let bytes: [u8; 8] = [high[0], high[1], high[2], high[3], low[0], low[1], low[2], low[3]];
    assert(bytes@ =~= be64(value));
    bytes
}

/// The sixteen bytes of a number.
pub fn to_be128(value: u128) -> (bytes: [u8; 16])
    ensures
        bytes@ == be128(value),
{
    let high: [u8; 8] = to_be64((value / 0x1_0000_0000_0000_0000) as u64);
    let low: [u8; 8] = to_be64((value % 0x1_0000_0000_0000_0000) as u64);
    let bytes: [u8; 16] = [
        high[0], high[1], high[2], high[3], high[4], high[5], high[6], high[7],
        low[0], low[1], low[2], low[3], low[4], low[5], low[6], low[7],
    ];
    assert(bytes@ =~= be128(value));
    bytes
}

/// The number that eight bytes from `at` on hold.
pub open spec fn be64_at(bytes: Seq<u8>, at: int) -> u64 {
    (be32_at(bytes, at) * 0x1_0000_0000 + be32_at(bytes, at + 4)) as u64
}

/// The number that sixteen bytes from `at` on hold.
pub open spec fn be128_at(bytes: Seq<u8>, at: int) -> u128 {
    (be64_at(bytes, at) * 0x1_0000_0000_0000_0000 + be64_at(bytes, at + 8)) as u128
}

/// Writing the number that four bytes hold gives the bytes back.
pub proof fn lemma_be32_read(bytes: Seq<u8>, at: int)
    requires
        0 <= at,
        at + 4 <= bytes.len(),
    ensures
        be32(be32_at(bytes, at)) == bytes.subrange(at, at + 4),
{
    let value = be32_at(bytes, at);
    let (a, b, c, d) = (bytes[at], bytes[at + 1], bytes[at + 2], bytes[at + 3]);
    assert(value / 0x100_0000 == a && value / 0x1_0000 % 256 == b && value / 0x100 % 256 == c && value % 256 == d)
        by (bit_vector)
        requires
            value == a * 0x100_0000 + b * 0x1_0000 + c * 0x100 + d,
    ;
    assert(be32(value) =~= bytes.subrange(at, at + 4));
}

/// Writing the number that eight bytes hold gives the bytes back.
pub proof fn lemma_be64_read(bytes: Seq<u8>, at: int)
    requires
        0 <= at,
        at + 8 <= bytes.len(),
    ensures
        be64(be64_at(bytes, at)) == bytes.subrange(at, at + 8),
{
    let value = be64_at(bytes, at);
    assert(value / 0x1_0000_0000 == be32_at(bytes, at));
    assert(value % 0x1_0000_0000 == be32_at(bytes, at + 4));
    lemma_be32_read(bytes, at);
    lemma_be32_read(bytes, at + 4);
    assert(bytes.subrange(at, at + 8) =~= bytes.subrange(at, at + 4) + bytes.subrange(at + 4, at + 8));
}

/// Writing the number that sixteen bytes hold gives the bytes back.
pub proof fn lemma_be128_read(bytes: Seq<u8>, at: int)
    requires
        0 <= at,
        at + 16 <= bytes.len(),
    ensures
        be128(be128_at(bytes, at)) == bytes.subrange(at, at + 16),
{
    let value = be128_at(bytes, at);
    assert(value / 0x1_0000_0000_0000_0000 == be64_at(bytes, at));
    assert(value % 0x1_0000_0000_0000_0000 == be64_at(bytes, at + 8));
    lemma_be64_read(bytes, at);
    lemma_be64_read(bytes, at + 8);
    assert(bytes.subrange(at, at + 16) =~= bytes.subrange(at, at + 8) + bytes.subrange(at + 8, at + 16));
}

/// The number that the four bytes of a slice from `at` on hold.
pub fn read_be32_at(bytes: &[u8], at: usize) -> (value: u32)
    requires
        at + 4 <= bytes@.len(),
    ensures
        value == be32_at(bytes@, at as int),
{
    read_be32(bytes[at], bytes[at + 1], bytes[at + 2], bytes[at + 3])
}

/// The number that the two bytes of a slice from `at` on hold.
pub fn read_be16_at(bytes: &[u8], at: usize) -> (value: u16)
    requires
        at + 2 <= bytes@.len(),
    ensures
        value == be16_at(bytes@, at as int),
        value == bytes@[at as int] * 256 + bytes@[at + 1],
{
    read_be16(bytes[at], bytes[at + 1])
}

/// The number that the eight bytes of a slice from `at` on hold.
pub fn read_be64_at(bytes: &[u8], at: usize) -> (value: u64)
    requires
        at + 8 <= bytes@.len(),
    ensures
        value == be64_at(bytes@, at as int),
{
    assert(at + 8 <= bytes.len());
    read_be32_at(bytes, at) as u64 * 0x1_0000_0000 + read_be32_at(bytes, at + 4) as u64
}

/// The number that the sixteen bytes of a slice from `at` on hold.
pub fn read_be128_at(bytes: &[u8], at: usize) -> (value: u128)
    requires
        at + 16 <= bytes@.len(),
    ensures
        value == be128_at(bytes@, at as int),
{
    assert(at + 16 <= bytes.len());
    read_be64_at(bytes, at) as u128 * 0x1_0000_0000_0000_0000 + read_be64_at(bytes, at + 8) as u128
}

/// Reading eight bytes gives back the number that was written.
pub proof fn lemma_be64(value: u64)
    ensures
        be64(value).len() == 8,
        be64_at(be64(value), 0) == value,
{
    let high = (value / 0x1_0000_0000) as u32;
    let low = (value % 0x1_0000_0000) as u32;
    lemma_be32(high);
    lemma_be32(low);
    let bytes = be64(value);
    assert(bytes[0] == be32(high)[0] && bytes[1] == be32(high)[1] && bytes[2] == be32(high)[2] && bytes[3]
        == be32(high)[3]);
    assert(bytes[4] == be32(low)[0] && bytes[5] == be32(low)[1] && bytes[6] == be32(low)[2] && bytes[7]
        == be32(low)[3]);
}

/// Reading sixteen bytes gives back the number that was written.
pub proof fn lemma_be128(value: u128)
    ensures
        be128(value).len() == 16,
        be128_at(be128(value), 0) == value,
{
    let high = (value / 0x1_0000_0000_0000_0000) as u64;
    let low = (value % 0x1_0000_0000_0000_0000) as u64;
    lemma_be64(high);
    lemma_be64(low);
    let bytes = be128(value);
    assert(bytes.take(8) =~= be64(high));
    assert(bytes.skip(8) =~= be64(low));
    assert forall|i: int| 0 <= i < 8 implies #[trigger] bytes[i] == be64(high)[i] by {
        assert(bytes.take(8)[i] == bytes[i]);
    }
    assert forall|i: int| 8 <= i < 16 implies #[trigger] bytes[i] == be64(low)[i - 8] by {
        assert(bytes.skip(8)[i - 8] == bytes[i]);
    }
    assert(be64_at(bytes, 0) == be64_at(be64(high), 0));
    assert(be64_at(bytes, 8) == be64_at(be64(low), 0));
}

}
