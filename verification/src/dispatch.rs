//! What the dispatch of one input hands to each decoder.
use crate::endian;
use crate::fec::decoder::DecodedSource;
use crate::fuzzing;
use crate::fuzzing::{Acknowledged, FuzzCase, OffsetRecord};
use vstd::prelude::*;

verus! {

/// The first byte of an input chooses one of nine decoders, and the rest is what that decoder
/// gets; an empty input goes nowhere.
pub proof fn law_first_byte_chooses_the_decoder<D: Fn(&[u8]) -> DecodedSource>(
    input: &[u8],
    decode: &D,
    case: Option<FuzzCase>,
)
    requires
        call_ensures(fuzzing::protocol::<D>, (input, decode), case),
    ensures
        case is None <==> input@.len() == 0,
        input@.len() > 0 ==> {
            let rest = input@.skip(1);
            &&& input@[0] % 9 == 0 ==> (case matches Some(FuzzCase::Control(bytes)) && bytes@ == rest)
            &&& input@[0] % 9 == 1 ==> (case matches Some(FuzzCase::Source(bytes)) && bytes@ == rest)
            &&& input@[0] % 9 == 2 ==> (case matches Some(FuzzCase::Repair(bytes)) && bytes@ == rest)
            &&& input@[0] % 9 == 3 ==> (case matches Some(FuzzCase::Token(bytes)) && bytes@ == rest)
            &&& input@[0] % 9 == 4 ==> (case matches Some(FuzzCase::AckRanges(_)))
            &&& input@[0] % 9 == 5 ==> (case matches Some(FuzzCase::Replay(_, _)))
            &&& input@[0] % 9 == 6 ==> (case matches Some(FuzzCase::Reassembly(_, end)) && end == rest.len())
            &&& input@[0] % 9 == 7 ==> (case matches Some(FuzzCase::Decoder(known, rows)) && known <= 64 && rows <= 32)
            &&& input@[0] % 9 == 8 ==> (case matches Some(FuzzCase::FakeTcp(_)))
        },
{
}

/// The first sixteen bytes are two numbers, and each sixteen bytes behind them one range, up to
/// 32 of them; what is missing is zero.
pub proof fn law_ranges_are_read_in_pairs(data: &[u8], acknowledged: Acknowledged, index: int)
    requires
        call_ensures(fuzzing::split_ranges, (data,), acknowledged),
        0 <= index < acknowledged.ranges@.len(),
    ensures
        data@.len() >= 16,
        acknowledged.contiguous == endian::be64_at(data@, 0),
        acknowledged.sent_offset == endian::be64_at(data@, 8),
        acknowledged.ranges@.len() <= 32,
        acknowledged.ranges@.len() * 16 + 16 <= data@.len(),
        acknowledged.ranges@.len() < 32 ==> data@.len() < acknowledged.ranges@.len() * 16 + 32,
        acknowledged.ranges@[index].0 == endian::be64_at(data@, 16 + index * 16),
        acknowledged.ranges@[index].1 == endian::be64_at(data@, 24 + index * 16),
{
}

/// A number is read where all of its eight bytes are there, and is zero where they are not.
pub proof fn law_missing_numbers_are_zero(data: &[u8], at: usize, value: u64)
    requires
        at <= 8,
        call_ensures(fuzzing::read_u64, (data, at), value),
    ensures
        at + 8 <= data@.len() ==> value == endian::be64_at(data@, at as int),
        at + 8 > data@.len() ==> value == 0,
{
}

/// Records to be sent again are the input in pieces of 64 bytes, one behind the other, each at
/// its own offset; the first 64 pieces count.
pub proof fn law_replayed_records_are_the_input(data: &[u8], records: Vec<OffsetRecord>, index: int)
    requires
        call_ensures(fuzzing::replay_records, (data,), records),
        0 <= index < records@.len(),
    ensures
        records@.len() <= 64,
        records@.len() == 64 || records@.len() * 64 >= data@.len(),
        index * 64 < data@.len(),
        records@[index].offset == index * 64,
        records@[index].bytes@ == data@.subrange(
            index * 64,
            if index * 64 + 64 < data@.len() {
                index * 64 + 64
            } else {
                data@.len() as int
            },
        ),
{
    let length = data@.len() as int;
    assert((index + 1) * 64 == index * 64 + 64);
}

/// Records to be put together are the input in pieces of 72 bytes: the first byte of each says
/// its offset in units of eight, and the others are its bytes; the first 56 pieces count.
pub proof fn law_reassembled_records_carry_their_offset(data: &[u8], records: Vec<OffsetRecord>, index: int)
    requires
        call_ensures(fuzzing::reassembly_records, (data,), records),
        0 <= index < records@.len(),
    ensures
        records@.len() <= 56,
        records@.len() == 56 || records@.len() * 72 >= data@.len(),
        index * 72 < data@.len(),
        records@[index].offset == data@[index * 72] * 8,
        records@[index].bytes@ == data@.subrange(
            index * 72 + 1,
            if index * 72 + 72 < data@.len() {
                index * 72 + 72
            } else {
                data@.len() as int
            },
        ),
{
    let piece = fuzzing::piece(data@, 72, index);
    let end = if index * 72 + 72 < data@.len() {
        index * 72 + 72
    } else {
        data@.len() as int
    };
    assert((index + 1) * 72 == index * 72 + 72);
    assert(piece =~= data@.subrange(index * 72, end));
    assert(piece.skip(1) =~= data@.subrange(index * 72 + 1, end));
}

/// The decoder that is fed an input stays within 64 sources and 32 equations.
pub proof fn law_fed_decoder_stays_within_its_bounds<D: Fn(&[u8]) -> DecodedSource>(
    data: &[u8],
    decode: &D,
    held: (usize, usize),
)
    requires
        call_ensures(fuzzing::fuzz_decoder::<D>, (data, decode), held),
    ensures
        held.0 <= 64,
        held.1 <= 32,
{
}

} // verus!
