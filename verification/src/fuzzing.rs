//! Dispatch of one bounded input into every decoder and recovery state machine that a peer
//! feeds.
use crate::address::{IpAddress, SocketAddress};
use crate::endian;
use crate::faketcp::carrier;
use crate::faketcp::carrier::{CarrierModel, FakeTcpCarrier};
use crate::faketcp::cookie;
use crate::faketcp::error::CarrierError;
use crate::faketcp::tuple::{CarrierDirection, FourTuple, SynDataMode};
use crate::fec::decoder;
use crate::fec::decoder::{DecodedSource, Decoder, DecoderModel, RecoveredBatch, Repair};
use crate::fec::laws;
use crate::fec::matrix::FecError;
use crate::recovery::RecoveryMemoryBudget;
use crate::storage;
use vstd::prelude::*;

verus! {

/// The most bytes that a state machine under test holds.
pub const MAX_FUZZ_BYTES: usize = 4096;

/// The most ranges or records of one decoder call.
pub const MAX_FUZZ_ITEMS: usize = 32;

/// The bytes of one acknowledged range: where it starts and where it ends.
pub const RANGE_BYTES: usize = 16;

/// What one acknowledgment claims.
#[derive(Debug)]
pub struct Acknowledged {
    /// How far the bytes arrived without a gap.
    pub contiguous: u64,
    /// How far the sender has come.
    pub sent_offset: u64,
    /// The start and the end of each further range.
    pub ranges: Vec<(u64, u64)>,
}

/// A record for a state machine that orders bytes by their offset.
#[derive(Debug)]
pub struct OffsetRecord {
    /// Where the bytes stand.
    pub offset: u64,
    /// The bytes.
    pub bytes: Vec<u8>,
}

/// What an input was used for.
#[derive(Debug)]
pub enum FuzzCase {
    /// A control frame, to be read with at most [`MAX_FUZZ_ITEMS`] ranges.
    Control(Vec<u8>),
    /// A source symbol, to be read with at most [`MAX_FUZZ_ITEMS`] records and
    /// [`MAX_FUZZ_BYTES`] bytes.
    Source(Vec<u8>),
    /// A repair symbol, to be read with at most [`MAX_FUZZ_BYTES`] bytes.
    Repair(Vec<u8>),
    /// A replay token.
    Token(Vec<u8>),
    /// An acknowledgment.
    AckRanges(Acknowledged),
    /// An acknowledgment of the records that a replay buffer of [`MAX_FUZZ_BYTES`] retains.
    Replay(Acknowledged, Vec<OffsetRecord>),
    /// Records for a reassembler of [`MAX_FUZZ_BYTES`], and the final offset behind them.
    Reassembly(Vec<OffsetRecord>, u64),
    /// The known sources and the equations that a decoder held in the end.
    Decoder(usize, usize),
    /// What a carrier made of the packet.
    FakeTcp(Result<(), CarrierError>),
}

/// The number of an 8 byte field; an absent field is zero.
pub open spec fn field_value(bytes: Seq<u8>, at: int) -> u64 {
    if at + 8 <= bytes.len() {
        endian::be64_at(bytes, at)
    } else {
        0
    }
}

/// How many whole ranges stand behind the two leading fields, within the bound.
pub open spec fn range_count(data: Seq<u8>) -> int {
    if data.len() < RANGE_BYTES {
        0
    } else if (data.len() - RANGE_BYTES) / (RANGE_BYTES as int) > MAX_FUZZ_ITEMS {
        MAX_FUZZ_ITEMS as int
    } else {
        (data.len() - RANGE_BYTES) / (RANGE_BYTES as int)
    }
}

/// The acknowledgment that some bytes stand for.
pub open spec fn acknowledges(data: Seq<u8>, acknowledged: Acknowledged) -> bool {
    &&& acknowledged.contiguous == field_value(data, 0)
    &&& acknowledged.sent_offset == field_value(data, 8)
    &&& acknowledged.ranges@ == Seq::new(
        range_count(data) as nat,
        |i: int|
            (
                endian::be64_at(data, RANGE_BYTES + i * RANGE_BYTES),
                endian::be64_at(data, RANGE_BYTES + i * RANGE_BYTES + 8),
            ),
    )
}

/// How many pieces of `size` bytes there are, the last of which may be shorter.
pub open spec fn piece_count(length: int, size: int, limit: int) -> int {
    let pieces = (length + size - 1) / size;
    if pieces > limit {
        limit
    } else {
        pieces
    }
}

/// Where a piece ends.
pub open spec fn piece_end(length: int, size: int, index: int) -> int {
    if (index + 1) * size > length {
        length
    } else {
        (index + 1) * size
    }
}

/// The piece at an index.
pub open spec fn piece(data: Seq<u8>, size: int, index: int) -> Seq<u8> {
    data.subrange(index * size, piece_end(data.len() as int, size, index))
}

/// Whether these are the records of a replay buffer: pieces of 64 bytes, each at its place.
pub open spec fn replays(data: Seq<u8>, records: Seq<OffsetRecord>) -> bool {
    &&& records.len() == piece_count(data.len() as int, 64, 64)
    &&& forall|i: int|
        0 <= i < records.len() ==> (#[trigger] records[i]).offset == i * 64 && records[i].bytes@ == piece(data, 64, i)
}

/// Whether these are the records of a reassembler: pieces of 72 bytes, whose first byte
/// counts where the others stand, in steps of 8.
pub open spec fn reassembles(data: Seq<u8>, records: Seq<OffsetRecord>) -> bool {
    &&& records.len() == piece_count(data.len() as int, 72, 56)
    &&& forall|i: int|
        0 <= i < records.len() ==> (#[trigger] records[i]).offset == piece(data, 72, i)[0] * 8
            && records[i].bytes@ == piece(data, 72, i).skip(1)
}

/// The path of the carrier under test.
pub open spec fn fuzz_tuple() -> FourTuple {
    FourTuple {
        source: SocketAddress { ip: IpAddress::V4(0xc000_0201), port: 40_000, flow_info: 0, scope_id: 0 },
        destination: SocketAddress { ip: IpAddress::V4(0xc633_6401), port: 443, flow_info: 0, scope_id: 0 },
    }
}

/// Whether a new carrier of that path answers the packet so.
pub open spec fn carrier_answers(packet: Seq<u8>, answer: Result<(), CarrierError>) -> bool {
    ||| answer == Err::<(), CarrierError>(CarrierError::Randomness) && cookie::drawn(None)
    ||| exists|start: CarrierModel| #[trigger]
        starts(start) && match carrier::datagram_in(start, packet) {
            Ok(_) => answer is Ok,
            Err(error) => answer == Err::<(), CarrierError>(error),
        }
}

/// Whether a carrier of that path may start in this state.
pub open spec fn starts(start: CarrierModel) -> bool {
    &&& start == carrier::fresh(
        fuzz_tuple(),
        SynDataMode::Disabled,
        start.send_sequence,
        crate::faketcp::options::DEFAULT_SYN_MSS,
        0xffff,
    )
    &&& cookie::sequence_drawn(start.send_sequence, fuzz_tuple(), CarrierDirection::ClientToServer)
}

/// A decoder under test and the budget that it draws on.
pub struct Fed {
    pub decoder: DecoderModel,
    pub memory: RecoveryMemoryBudget,
}

/// The decoder before the first piece.
pub open spec fn unfed() -> Fed {
    Fed {
        decoder: DecoderModel {
            known: Seq::empty(),
            rows: Seq::empty(),
            max_symbols: 64,
            max_rows: 32,
            max_symbol_bytes: 256,
            row_bytes: 0,
        },
        memory: RecoveryMemoryBudget { id: 0, limit: u32::MAX as u64, used: 0 },
    }
}

/// How many sources an operation recovered, or why it was refused.
pub open spec fn recovered_count(result: Result<RecoveredBatch, FecError>) -> Result<usize, FecError> {
    match result {
        Ok(batch) => Ok(batch.items@.len() as usize),
        Err(error) => Err(error),
    }
}

/// The budget once the memory of what an operation recovered is given back.
pub open spec fn settled(memory: RecoveryMemoryBudget, result: Result<RecoveredBatch, FecError>) -> RecoveryMemoryBudget {
    memory.with_used(memory.used - laws::handed_out(result))
}

/// Whether a piece went to the decoder as the source `id`, and what it recovered was
/// discarded.
pub open spec fn source_fed<D: Fn(&[u8]) -> DecodedSource>(
    decode: &D,
    id: u32,
    bytes: Seq<u8>,
    before: Fed,
    after: Fed,
    answer: Result<usize, FecError>,
) -> bool {
    exists|spent: RecoveryMemoryBudget, result: Result<RecoveredBatch, FecError>| #[trigger]
        decoder::sources(
            decode,
            id,
            bytes,
            MAX_FUZZ_BYTES as int,
            before.decoder,
            after.decoder,
            before.memory,
            spent,
            result,
        ) && after.memory == settled(spent, result) && answer == recovered_count(result)
}

/// A piece as the repair `id` of the first four sources.
pub open spec fn fuzz_repair(id: u32, bytes: Seq<u8>) -> Repair {
    Repair { first: 0, span: 4, repair_id: id, seed: 7, coded: bytes }
}

/// Whether a piece went to the decoder as the repair `id`, and what it recovered was
/// discarded.
pub open spec fn repair_fed<D: Fn(&[u8]) -> DecodedSource>(
    decode: &D,
    id: u32,
    bytes: Seq<u8>,
    before: Fed,
    after: Fed,
    answer: Result<usize, FecError>,
) -> bool {
    exists|spent: RecoveryMemoryBudget, result: Result<RecoveredBatch, FecError>| #[trigger]
        decoder::repairs(
            decode,
            fuzz_repair(id, bytes),
            MAX_FUZZ_BYTES as int,
            before.decoder,
            after.decoder,
            before.memory,
            spent,
            result,
        ) && after.memory == settled(spent, result) && answer == recovered_count(result)
}

/// Whether one state leads to the next by the piece at an index, which is fed as a source
/// and then as a repair.
pub open spec fn piece_fed<D: Fn(&[u8]) -> DecodedSource>(
    decode: &D,
    data: Seq<u8>,
    index: int,
    before: Fed,
    after: Fed,
) -> bool {
    exists|between: Fed, sourced: Result<usize, FecError>, repaired: Result<usize, FecError>|
        #[trigger] source_fed(decode, index as u32, piece(data, 128, index), before, between, sourced)
            && #[trigger] repair_fed(decode, index as u32, piece(data, 128, index), between, after, repaired)
}

/// Whether the state at an index of `states` leads to the one behind it.
pub open spec fn leads_on<D: Fn(&[u8]) -> DecodedSource>(
    decode: &D,
    data: Seq<u8>,
    states: Seq<Fed>,
    index: int,
) -> bool {
    piece_fed(decode, data, index, states[index], states[index + 1])
}

/// Whether a decoder goes through these states when the data is fed to it in pieces of 128
/// bytes.
pub open spec fn feeds<D: Fn(&[u8]) -> DecodedSource>(decode: &D, data: Seq<u8>, states: Seq<Fed>) -> bool {
    &&& states.len() == piece_count(data.len() as int, 128, MAX_FUZZ_ITEMS as int) + 1
    &&& states[0] == unfed()
    &&& forall|index: int| 0 <= index < states.len() - 1 ==> #[trigger] leads_on(decode, data, states, index)
}

/// Whether a decoder that was fed with the data may hold so many sources and equations.
pub open spec fn decoder_holds<D: Fn(&[u8]) -> DecodedSource>(
    decode: &D,
    data: Seq<u8>,
    known: usize,
    rows: usize,
) -> bool {
    &&& known <= 64
    &&& rows <= 32
    &&& exists|states: Seq<Fed>| #[trigger]
        feeds(decode, data, states) && known == states.last().decoder.known.len() && rows
            == states.last().decoder.rows.len()
}

/// What becomes of an input: its first byte selects the decoder, the others feed it.
pub open spec fn dispatched<D: Fn(&[u8]) -> DecodedSource>(decode: &D, input: Seq<u8>, case: Option<FuzzCase>) -> bool {
    if input.len() == 0 {
        case is None
    } else {
        let data = input.skip(1);
        match (input[0] % 9, case) {
            (0, Some(FuzzCase::Control(bytes))) => bytes@ == data,
            (1, Some(FuzzCase::Source(bytes))) => bytes@ == data,
            (2, Some(FuzzCase::Repair(bytes))) => bytes@ == data,
            (3, Some(FuzzCase::Token(bytes))) => bytes@ == data,
            (4, Some(FuzzCase::AckRanges(acknowledged))) => acknowledges(data, acknowledged),
            (5, Some(FuzzCase::Replay(acknowledged, records))) => acknowledges(data, acknowledged) && replays(
                data,
                records@,
            ),
            (6, Some(FuzzCase::Reassembly(records, end))) => reassembles(data, records@) && end == data.len(),
            (7, Some(FuzzCase::Decoder(known, rows))) => decoder_holds(decode, data, known, rows),
            (8, Some(FuzzCase::FakeTcp(answer))) => carrier_answers(data, answer),
            _ => false,
        }
    }
}

/// Dispatches one bounded fuzz input by its first byte. `decode` reads the source symbols
/// that the decoder recovers.
pub fn protocol<D: Fn(&[u8]) -> DecodedSource>(input: &[u8], decode: &D) -> (case: Option<FuzzCase>)
    requires
        forall|bytes: &[u8]| #[trigger] call_requires(decode, (bytes,)),
    ensures
        dispatched(decode, input@, case),
{
    if input.len() == 0 {
        return None;
    }
    let data = vstd::slice::slice_subrange(input, 1, input.len());
    assert(data@ =~= input@.skip(1));
    let tag: u8 = input[0] % 9;
    if tag == 0 {
        Some(FuzzCase::Control(vstd::slice::slice_to_vec(data)))
    } else if tag == 1 {
        Some(FuzzCase::Source(vstd::slice::slice_to_vec(data)))
    } else if tag == 2 {
        Some(FuzzCase::Repair(vstd::slice::slice_to_vec(data)))
    } else if tag == 3 {
        Some(FuzzCase::Token(vstd::slice::slice_to_vec(data)))
    } else if tag == 4 {
        Some(FuzzCase::AckRanges(split_ranges(data)))
    } else if tag == 5 {
        Some(FuzzCase::Replay(split_ranges(data), replay_records(data)))
    } else if tag == 6 {
        assert(data.len() == data@.len());
        Some(FuzzCase::Reassembly(reassembly_records(data), data.len() as u64))
    } else if tag == 7 {
        let (known, rows): (usize, usize) = fuzz_decoder(data, decode);
        Some(FuzzCase::Decoder(known, rows))
    } else {
        Some(FuzzCase::FakeTcp(fuzz_faketcp(data)))
    }
}

/// Reads an acknowledgment out of some bytes.
pub fn split_ranges(data: &[u8]) -> (acknowledged: Acknowledged)
    ensures
        acknowledges(data@, acknowledged),
{
    let contiguous: u64 = read_u64(data, 0);
    let sent_offset: u64 = read_u64(data, 8);
    let mut ranges: Vec<(u64, u64)> = Vec::new();
    let mut at: usize = RANGE_BYTES;
    while ranges.len() < MAX_FUZZ_ITEMS && at <= data.len() && data.len() - at >= RANGE_BYTES
        invariant
            at == RANGE_BYTES + ranges@.len() * RANGE_BYTES,
            ranges@.len() <= MAX_FUZZ_ITEMS,
            ranges@.len() > 0 ==> at <= data@.len(),
            forall|i: int|
                0 <= i < ranges@.len() ==> #[trigger] ranges@[i] == (
                    endian::be64_at(data@, RANGE_BYTES + i * RANGE_BYTES),
                    endian::be64_at(data@, RANGE_BYTES + i * RANGE_BYTES + 8),
                ),
        decreases MAX_FUZZ_ITEMS - ranges@.len(),
    {
        ranges.push((endian::read_be64_at(data, at), endian::read_be64_at(data, at + 8)));
        at += RANGE_BYTES;
    }
    let acknowledged = Acknowledged { contiguous, sent_offset, ranges };
    assert(acknowledged.ranges@ =~= Seq::new(
        range_count(data@) as nat,
        |i: int|
            (
                endian::be64_at(data@, RANGE_BYTES + i * RANGE_BYTES),
                endian::be64_at(data@, RANGE_BYTES + i * RANGE_BYTES + 8),
            ),
    ));
    acknowledged
}

/// Reads an 8 byte field. A field that is not there is zero.
pub fn read_u64(data: &[u8], at: usize) -> (value: u64)
    requires
        at <= 8,
    ensures
        value == field_value(data@, at as int),
{
    if data.len() >= 8 && data.len() - 8 >= at {
        endian::read_be64_at(data, at)
    } else {
        0
    }
}

fn next_piece<'a>(data: &'a [u8], size: usize, index: usize) -> (bytes: &'a [u8])
    requires
        0 < size <= 128,
        index < 128,
        index * size < data@.len(),
    ensures
        bytes@ == piece(data@, size as int, index as int),
        bytes@.len() > 0,
        bytes@.len() <= size,
{
    assert(index * size <= 128 * 128) by (nonlinear_arith)
        requires index < 128, size <= 128;
    assert((index + 1) * size == index * size + size) by (nonlinear_arith);
    let start: usize = index * size;
    let end: usize = if data.len() - start < size {
        data.len()
    } else {
        start + size
    };
    vstd::slice::slice_subrange(data, start, end)
}

proof fn lemma_piece_count(length: int, size: int, limit: int, at: int)
    requires
        0 < size,
        0 <= at <= limit,
        0 <= length,
        at > 0 ==> (at - 1) * size < length,
        at == limit || at * size >= length,
    ensures
        at == piece_count(length, size, limit),
{
    let pieces = (length + size - 1) / size;
    assert(pieces * size <= length + size - 1 < pieces * size + size) by (nonlinear_arith)
        requires
            pieces == (length + size - 1) / size,
            size > 0,
    ;
    if at > pieces {
        assert((at - 1) * size >= pieces * size) by (nonlinear_arith)
            requires at - 1 >= pieces, size > 0;
    }
    if at < pieces && at < limit {
        assert((pieces - 1) * size >= at * size) by (nonlinear_arith)
            requires pieces - 1 >= at, size > 0;
        assert((pieces - 1) * size == pieces * size - size) by (nonlinear_arith);
    }
}

/// The records that a replay buffer retains.
pub fn replay_records(data: &[u8]) -> (records: Vec<OffsetRecord>)
    ensures
        replays(data@, records@),
{
    let mut records: Vec<OffsetRecord> = Vec::new();
    let mut at: usize = 0;
    while at < 64 && at * 64 < data.len()
        invariant
            at <= 64,
            at == records@.len(),
            at > 0 ==> (at - 1) * 64 < data@.len(),
            forall|i: int|
                0 <= i < records@.len() ==> (#[trigger] records@[i]).offset == i * 64 && records@[i].bytes@ == piece(
                    data@,
                    64,
                    i,
                ),
        decreases 64 - at,
    {
        let bytes = next_piece(data, 64, at);
        records.push(OffsetRecord { offset: at as u64 * 64, bytes: vstd::slice::slice_to_vec(bytes) });
        at += 1;
    }
    proof {
        lemma_piece_count(data@.len() as int, 64, 64, at as int);
    }
    records
}

/// The records that a reassembler orders.
pub fn reassembly_records(data: &[u8]) -> (records: Vec<OffsetRecord>)
    ensures
        reassembles(data@, records@),
{
    let mut records: Vec<OffsetRecord> = Vec::new();
    let mut at: usize = 0;
    while at < 56 && at * 72 < data.len()
        invariant
            at <= 56,
            at == records@.len(),
            at > 0 ==> (at - 1) * 72 < data@.len(),
            forall|i: int|
                0 <= i < records@.len() ==> (#[trigger] records@[i]).offset == piece(data@, 72, i)[0] * 8
                    && records@[i].bytes@ == piece(data@, 72, i).skip(1),
        decreases 56 - at,
    {
        let bytes = next_piece(data, 72, at);
        let rest = vstd::slice::slice_subrange(bytes, 1, bytes.len());
        assert(rest@ =~= bytes@.skip(1));
        records.push(OffsetRecord { offset: bytes[0] as u64 * 8, bytes: vstd::slice::slice_to_vec(rest) });
        at += 1;
    }
    proof {
        lemma_piece_count(data@.len() as int, 72, 56, at as int);
    }
    records
}

/// Feeds a small decoder with pieces of the data, each as a source and as a repair, and
/// counts what it holds in the end.
pub fn fuzz_decoder<D: Fn(&[u8]) -> DecodedSource>(data: &[u8], decode: &D) -> (held: (usize, usize))
    requires
        forall|bytes: &[u8]| #[trigger] call_requires(decode, (bytes,)),
    ensures
        decoder_holds(decode, data@, held.0, held.1),
{
    let mut budget = RecoveryMemoryBudget::new(0, u32::MAX);
    let mut decoder = Decoder::with_budget(64, 32, 256);
    let mut at: usize = 0;
    let ghost mut states: Seq<Fed> = seq![unfed()];
    while at < MAX_FUZZ_ITEMS && at * 128 < data.len()
        invariant
            at <= MAX_FUZZ_ITEMS,
            at > 0 ==> (at - 1) * 128 < data@.len(),
            decoder.wf(),
            decoder@.max_symbols == 64,
            decoder@.max_rows == 32,
            budget.used >= decoder@.held(),
            states.len() == at + 1,
            states[0] == unfed(),
            states.last() == (Fed { decoder: decoder@, memory: budget }),
            forall|index: int| 0 <= index < at ==> #[trigger] leads_on(decode, data@, states, index),
            forall|bytes: &[u8]| #[trigger] call_requires(decode, (bytes,)),
        decreases MAX_FUZZ_ITEMS - at,
    {
        let bytes = next_piece(data, 128, at);
        let id: u32 = at as u32;
        let sourced = add_source(&mut decoder, &mut budget, id, bytes, decode);
        let ghost between = Fed { decoder: decoder@, memory: budget };
        let repaired = add_repair(&mut decoder, &mut budget, id, bytes, decode);
        proof {
            let earlier = states;
            let after = Fed { decoder: decoder@, memory: budget };
            states = earlier.push(after);
            assert(source_fed(decode, id, bytes@, earlier.last(), between, sourced));
            assert(repair_fed(decode, id, bytes@, between, after, repaired));
            assert(piece_fed(decode, data@, at as int, earlier.last(), after));
            assert forall|index: int| 0 <= index < at + 1 implies #[trigger] leads_on(
                decode,
                data@,
                states,
                index,
            ) by {
                if index < at {
                    assert(leads_on(decode, data@, earlier, index));
                }
            }
        }
        at += 1;
    }
    proof {
        decoder.lemma_wf();
        lemma_piece_count(data@.len() as int, 128, MAX_FUZZ_ITEMS as int, at as int);
        assert(feeds(decode, data@, states));
    }
    decoder.state_counts()
}

/// Adds a piece as a source, discards what it recovers, and tells how much that was.
fn add_source<D: Fn(&[u8]) -> DecodedSource>(
    decoder: &mut Decoder,
    budget: &mut RecoveryMemoryBudget,
    id: u32,
    bytes: &[u8],
    decode: &D,
) -> (answer: Result<usize, FecError>)
    requires
        old(decoder).wf(),
        old(decoder)@.max_symbols > 0,
        old(budget).used >= old(decoder)@.held(),
        forall|bytes: &[u8]| #[trigger] call_requires(decode, (bytes,)),
    ensures
        final(decoder).wf(),
        source_fed(
            decode,
            id,
            bytes@,
            (Fed { decoder: old(decoder)@, memory: *old(budget) }),
            (Fed { decoder: final(decoder)@, memory: *final(budget) }),
            answer,
        ),
        final(decoder)@.max_symbols == old(decoder)@.max_symbols,
        final(decoder)@.max_rows == old(decoder)@.max_rows,
        final(budget).used - old(budget).used == final(decoder)@.held() - old(decoder)@.held(),
{
    let ghost before = decoder@;
    let ghost memory = *budget;
    let source = storage::copy_from_slice(bytes);
    let result = decoder.add_source(budget, id, source, MAX_FUZZ_BYTES, decode);
    let ghost spent = *budget;
    let ghost handed = result;
    proof {
        old(decoder).lemma_wf();
        decoder.lemma_wf();
        laws::law_source_conserves_memory(
            decode,
            id,
            bytes@,
            MAX_FUZZ_BYTES as int,
            before,
            decoder@,
            memory,
            spent,
            result,
        );
        decoder::lemma_valid_bytes(decoder@);
    }
    let answer: Result<usize, FecError> = discard(budget, result);
    proof {
        let first = Fed { decoder: before, memory };
        let last = Fed { decoder: decoder@, memory: *budget };
        assert(decoder::sources(
            decode,
            id,
            bytes@,
            MAX_FUZZ_BYTES as int,
            first.decoder,
            last.decoder,
            first.memory,
            spent,
            handed,
        ));
        assert(source_fed(decode, id, bytes@, first, last, answer));
    }
    answer
}

/// Adds a piece as a repair, discards what it recovers, and tells how much that was.
fn add_repair<D: Fn(&[u8]) -> DecodedSource>(
    decoder: &mut Decoder,
    budget: &mut RecoveryMemoryBudget,
    id: u32,
    bytes: &[u8],
    decode: &D,
) -> (answer: Result<usize, FecError>)
    requires
        old(decoder).wf(),
        old(decoder)@.max_symbols > 0,
        old(budget).used >= old(decoder)@.held(),
        forall|bytes: &[u8]| #[trigger] call_requires(decode, (bytes,)),
    ensures
        final(decoder).wf(),
        repair_fed(
            decode,
            id,
            bytes@,
            (Fed { decoder: old(decoder)@, memory: *old(budget) }),
            (Fed { decoder: final(decoder)@, memory: *final(budget) }),
            answer,
        ),
        final(decoder)@.max_symbols == old(decoder)@.max_symbols,
        final(decoder)@.max_rows == old(decoder)@.max_rows,
        final(budget).used - old(budget).used == final(decoder)@.held() - old(decoder)@.held(),
{
    let ghost before = decoder@;
    let ghost memory = *budget;
    let result = decoder.add_repair(budget, 0, 4, id, 7, bytes, MAX_FUZZ_BYTES, decode);
    let ghost spent = *budget;
    let ghost handed = result;
    proof {
        old(decoder).lemma_wf();
        decoder.lemma_wf();
        laws::law_repair_conserves_memory(
            decode,
            fuzz_repair(id, bytes@),
            MAX_FUZZ_BYTES as int,
            before,
            decoder@,
            memory,
            spent,
            result,
        );
        decoder::lemma_valid_bytes(decoder@);
    }
    let answer: Result<usize, FecError> = discard(budget, result);
    proof {
        let first = Fed { decoder: before, memory };
        let last = Fed { decoder: decoder@, memory: *budget };
        assert(decoder::repairs(
            decode,
            fuzz_repair(id, bytes@),
            MAX_FUZZ_BYTES as int,
            first.decoder,
            last.decoder,
            first.memory,
            spent,
            handed,
        ));
        assert(repair_fed(decode, id, bytes@, first, last, answer));
    }
    answer
}

/// Gives back the memory of what an operation recovered, and tells how much that was.
fn discard(budget: &mut RecoveryMemoryBudget, result: Result<RecoveredBatch, FecError>) -> (answer: Result<
    usize,
    FecError,
>)
    requires
        laws::handed_out(result) <= old(budget).used,
    ensures
        *final(budget) == settled(*old(budget), result),
        answer == recovered_count(result),
{
    match result {
        Ok(batch) => {
            let recovered: usize = batch.items.len();
            batch.discard(budget);
            Ok(recovered)
        },
        Err(error) => Err(error),
    }
}

/// Gives a new carrier one packet.
pub fn fuzz_faketcp(data: &[u8]) -> (answer: Result<(), CarrierError>)
    ensures
        carrier_answers(data@, answer),
{
    let tuple = FourTuple {
        source: SocketAddress { ip: IpAddress::V4(0xc000_0201), port: 40_000, flow_info: 0, scope_id: 0 },
        destination: SocketAddress { ip: IpAddress::V4(0xc633_6401), port: 443, flow_info: 0, scope_id: 0 },
    };
    match FakeTcpCarrier::new(tuple, CarrierDirection::ClientToServer, SynDataMode::Disabled) {
        Ok(created) => {
            let mut receiver = created;
            let ghost start = receiver@;
            assert(starts(start));
            match receiver.decode_datagram_borrowed(data) {
                Ok(_) => Ok(()),
                Err(error) => Err(error),
            }
        },
        Err(error) => Err(error),
    }
}

}
