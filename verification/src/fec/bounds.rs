//! What the decoder and the encoder take, what they refuse, and what they keep.
use crate::fec::decoder;
use crate::fec::decoder::{
    Admission, DecodedSource, Decoder, DecoderModel, KnownModel, RecoveredBatch, RecoveredSource, SourceRecord,
    SourceStatus,
};
use crate::fec::matrix;
use crate::fec::matrix::{FecError, Row, RowModel};
use crate::fec::symbol;
use crate::gf256;
use crate::recovery::{RecoveryCharge, RecoveryMemoryBudget};
use crate::storage;
use bytes::Bytes;
use vstd::prelude::*;

verus! {

/// How many terms and bytes these equations hold together.
pub open spec fn volume(rows: Seq<RowModel>) -> int
    decreases rows.len(),
{
    if rows.len() == 0 {
        0
    } else {
        volume(rows.drop_last()) + rows.last().coefficients.len() + rows.last().data.len()
    }
}

pub(crate) proof fn lemma_volume(rows: Seq<RowModel>, end: int)
    requires
        0 <= end <= rows.len(),
    ensures
        decoder::clone_total(rows, end) == volume(rows.take(end)),
    decreases end,
{
    if end > 0 {
        lemma_volume(rows, end - 1);
        assert(rows.take(end).drop_last() =~= rows.take(end - 1));
    }
}

/// A repair whose span is between 1 and 256 and whose size is between one byte and the
/// largest symbol, at a decoder with a free row, enough work left to copy its equations and
/// the new one, and enough memory left for the scratch room, is never refused before it is
/// combined. Each other one is, with the first reason that holds, and then nothing is charged.
pub proof fn law_repair_within_bounds_is_admitted(
    receiver: &Decoder,
    budget: &mut RecoveryMemoryBudget,
    span: u16,
    coded_bytes: usize,
    work_budget: usize,
    scratch: Result<usize, FecError>,
    result: Result<Admission, FecError>,
)
    requires
        call_ensures(Decoder::scratch_memory_bytes, (receiver, 1usize, span as usize, 0usize), scratch),
        call_ensures(Decoder::admit_repair, (receiver, budget, span, coded_bytes, work_budget), result),
    ensures
        span == 0 || span > 256 ==> result == Err::<Admission, FecError>(FecError::InvalidSpan),
        1 <= span <= 256 && (coded_bytes == 0 || coded_bytes > receiver@.max_symbol_bytes) ==> result == Err::<
            Admission,
            FecError,
        >(FecError::InvalidSymbolSize),
        1 <= span <= 256 && 1 <= coded_bytes <= receiver@.max_symbol_bytes ==> {
            if receiver@.rows.len() == receiver@.max_rows {
                result == Err::<Admission, FecError>(FecError::RowCapacity)
            } else if volume(receiver@.rows) + coded_bytes + span > work_budget {
                result == Err::<Admission, FecError>(FecError::WorkBudget)
            } else if scratch is Err || old(budget).used + scratch->Ok_0 > old(budget).limit {
                result == Err::<Admission, FecError>(FecError::MemoryCapacity)
            } else {
                &&& result matches Ok(admission) && admission.scratch.bytes == scratch->Ok_0
                    && admission.work == volume(
                    receiver@.rows,
                ) + coded_bytes + span
                &&& final(budget).used == old(budget).used + scratch->Ok_0
            }
        },
        result is Err ==> *final(budget) == *old(budget),
{
    lemma_volume(receiver@.rows, receiver@.rows.len() as int);
    assert(receiver@.rows.take(receiver@.rows.len() as int) =~= receiver@.rows);
}

proof fn lemma_longest(sources: Seq<Seq<u8>>, count: int, at: int)
    requires
        0 <= count <= sources.len(),
    ensures
        0 <= at < count ==> sources[at].len() <= symbol::longest(sources, count),
        symbol::longest(sources, count) > 0 ==> exists|i: int|
            0 <= i < count && (#[trigger] sources[i]).len() == symbol::longest(sources, count),
    decreases count,
{
    if count > 0 {
        lemma_longest(sources, count - 1, at);
        if symbol::longest(sources, count) > 0 && sources[count - 1].len() <= symbol::longest(sources, count - 1) {
            let i = choose|i: int|
                0 <= i < count - 1 && (#[trigger] sources[i]).len() == symbol::longest(sources, count - 1);
            assert(sources[i].len() == symbol::longest(sources, count));
        }
        if symbol::longest(sources, count) > 0 && sources[count - 1].len() > symbol::longest(sources, count - 1) {
            assert(sources[count - 1].len() == symbol::longest(sources, count));
        }
    }
}

/// The encoder makes a repair symbol of every span of 1 to 256 sources, none of them longer
/// than 65535 bytes and not all of them empty, and of no other. The symbol is as long as the
/// longest source.
pub proof fn law_encoder_takes_every_span(
    first_symbol_id: u32,
    repair_id: u32,
    seed: u32,
    sources: &[Bytes],
    result: Result<Vec<u8>, FecError>,
)
    requires
        call_ensures(symbol::repair_symbol, (first_symbol_id, repair_id, seed, sources), result),
    ensures
        result is Ok <==> {
            &&& 1 <= sources@.len() <= 256
            &&& exists|at: int| 0 <= at < sources@.len() && storage::contents(#[trigger] sources@[at]).len() > 0
            &&& forall|at: int| 0 <= at < sources@.len() ==> storage::contents(#[trigger] sources@[at]).len() <= 65535
        },
        result matches Ok(output) ==> {
            &&& 1 <= output@.len() <= 65535
            &&& forall|at: int|
                0 <= at < sources@.len() ==> storage::contents(#[trigger] sources@[at]).len() <= output@.len()
            &&& exists|at: int| 0 <= at < sources@.len()
                && storage::contents(#[trigger] sources@[at]).len() == output@.len()
        },
        sources@.len() == 0 || sources@.len() > 256 ==> result == Err::<Vec<u8>, FecError>(FecError::InvalidSpan),
        1 <= sources@.len() <= 256 && result is Err ==> result == Err::<Vec<u8>, FecError>(FecError::InvalidSymbolSize),
{
    let list = symbol::contents_of(sources@);
    let count = list.len() as int;
    lemma_longest(list, count, 0);
    assert forall|at: int| 0 <= at < sources@.len() implies storage::contents(#[trigger] sources@[at]).len()
        <= symbol::longest(list, count) by {
        lemma_longest(list, count, at);
        assert(list[at] == storage::contents(sources@[at]));
    }
    if symbol::longest(list, count) > 0 {
        let at = choose|at: int| 0 <= at < count && (#[trigger] list[at]).len() == symbol::longest(list, count);
        assert(list[at] == storage::contents(sources@[at]));
    }
}

/// Every repair symbol that the encoder makes is one that a decoder with room for it admits:
/// with symbols of that size, a free row, and enough work and memory.
pub proof fn law_encoded_repair_is_admitted(
    first_symbol_id: u32,
    repair_id: u32,
    seed: u32,
    sources: &[Bytes],
    coded: Vec<u8>,
    receiver: &Decoder,
    budget: &mut RecoveryMemoryBudget,
    work_budget: usize,
    scratch: usize,
    result: Result<Admission, FecError>,
)
    requires
        call_ensures(
            symbol::repair_symbol,
            (first_symbol_id, repair_id, seed, sources),
            Ok::<Vec<u8>, FecError>(coded),
        ),
        coded@.len() <= receiver@.max_symbol_bytes,
        receiver@.rows.len() < receiver@.max_rows,
        volume(receiver@.rows) + coded@.len() + sources@.len() <= work_budget,
        call_ensures(
            Decoder::scratch_memory_bytes,
            (receiver, 1usize, sources@.len() as usize, 0usize),
            Ok::<usize, FecError>(scratch),
        ),
        old(budget).used + scratch <= old(budget).limit,
        call_ensures(
            Decoder::admit_repair,
            (receiver, budget, sources@.len() as u16, coded@.len() as usize, work_budget),
            result,
        ),
    ensures
        result is Ok,
{
    lemma_volume(receiver@.rows, receiver@.rows.len() as int);
    assert(receiver@.rows.take(receiver@.rows.len() as int) =~= receiver@.rows);
}

/// The same at the decoder as a whole: a repair within those bounds is never turned away for
/// its span or for want of a row, and one of a right size at a decoder that knows no source is
/// never turned away for its size.
pub proof fn law_repair_within_bounds_is_combined<D: Fn(&[u8]) -> DecodedSource>(
    receiver: &mut Decoder,
    budget: &mut RecoveryMemoryBudget,
    first_symbol_id: u32,
    span: u16,
    repair_id: u32,
    seed: u32,
    coded: &[u8],
    work_budget: usize,
    decode: &D,
    result: Result<RecoveredBatch, FecError>,
)
    requires
        1 <= span <= 256,
        1 <= coded@.len() <= old(receiver)@.max_symbol_bytes,
        old(receiver)@.rows.len() < old(receiver)@.max_rows,
        call_ensures(
            Decoder::add_repair::<D>,
            (receiver, budget, first_symbol_id, span, repair_id, seed, coded, work_budget, decode),
            result,
        ),
    ensures
        result != Err::<RecoveredBatch, FecError>(FecError::InvalidSpan),
        result != Err::<RecoveredBatch, FecError>(FecError::RowCapacity),
        result is Err ==> final(receiver)@ == old(receiver)@ && *final(budget) == *old(budget),
{
    let state = old(receiver)@;
    let work = decoder::repair_work(state, span, coded@.len() as int);
    lemma_gathered_errors(
        state.known,
        first_symbol_id,
        span as int,
        repair_id,
        seed,
        coded@,
        work,
        work_budget as int,
    );
    if let Err(error) = result {
        let symbols = decoder::repair_outcome(
            state,
            first_symbol_id,
            span,
            repair_id,
            seed,
            coded@,
            work,
            work_budget as int,
        );
        if let Ok(Some(found)) = symbols {
            lemma_item_errors(found);
        }
    }
}

proof fn lemma_gathered_errors(
    known: Seq<KnownModel>,
    first: u32,
    count: int,
    repair_id: u32,
    seed: u32,
    coded: Seq<u8>,
    work: int,
    budget: int,
)
    ensures
        decoder::gathered(known, first, count, repair_id, seed, coded, work, budget) matches Err(error) ==> error
            == FecError::InvalidSymbolSize || error == FecError::WorkBudget,
    decreases count,
{
    if count > 0 {
        lemma_gathered_errors(known, first, count - 1, repair_id, seed, coded, work, budget);
    }
}

pub(crate) proof fn lemma_item_errors(symbols: Seq<(u32, Seq<u8>)>)
    ensures
        forall|decoded: Seq<DecodedSource>, end: int|
            (#[trigger] decoder::canonical_items(symbols, decoded, end)) matches Err(error) ==> error
                == FecError::ContradictoryRepair || error == FecError::MemoryCapacity,
{
    assert forall|decoded: Seq<DecodedSource>, end: int| true implies ((
    #[trigger] decoder::canonical_items(symbols, decoded, end)) matches Err(error) ==> error
        == FecError::ContradictoryRepair || error == FecError::MemoryCapacity) by {
        lemma_item_errors_to(symbols, decoded, end);
    }
}

proof fn lemma_item_errors_to(symbols: Seq<(u32, Seq<u8>)>, decoded: Seq<DecodedSource>, end: int)
    ensures
        decoder::canonical_items(symbols, decoded, end) matches Err(error) ==> error == FecError::ContradictoryRepair
            || error == FecError::MemoryCapacity,
    decreases end,
{
    if end > 0 {
        lemma_item_errors_to(symbols, decoded, end - 1);
    }
}

// ---------------------------------------------------------------------------
// Known sources
// ---------------------------------------------------------------------------

/// A new decoder knows no source, has no equation and holds no memory.
pub proof fn law_new_decoder_is_empty(
    max_symbols: usize,
    max_rows: usize,
    max_symbol_bytes: usize,
    receiver: Decoder,
    counts: (usize, usize),
    held: u128,
    symbol_id: u32,
    found: Option<&[u8]>,
)
    requires
        call_ensures(Decoder::with_budget, (max_symbols, max_rows, max_symbol_bytes), receiver),
        call_ensures(Decoder::state_counts, (&receiver,), counts),
        call_ensures(Decoder::held_bytes, (&receiver,), held),
        call_ensures(Decoder::known_source, (&receiver, symbol_id), found),
    ensures
        counts == (0usize, 0usize),
        held == 0,
        found is None,
        receiver@.max_symbols == max_symbols,
        receiver@.max_rows == max_rows,
        receiver@.max_symbol_bytes == max_symbol_bytes,
{
}

/// A source has the status of what is known of it: new where nothing is, a duplicate where the
/// same bytes are, and a contradiction where other bytes are.
pub proof fn law_status_compares_with_what_is_known(
    receiver: &Decoder,
    symbol_id: u32,
    source: &[u8],
    found: Option<&[u8]>,
    status: Result<SourceStatus, FecError>,
)
    requires
        call_ensures(Decoder::known_source, (receiver, symbol_id), found),
        call_ensures(Decoder::source_status, (receiver, symbol_id, source), status),
    ensures
        found is None <==> status == Ok::<SourceStatus, FecError>(SourceStatus::New),
        found matches Some(bytes) ==> (if bytes@ == source@ {
            status == Ok::<SourceStatus, FecError>(SourceStatus::Duplicate)
        } else {
            status == Err::<SourceStatus, FecError>(FecError::ContradictoryRepair)
        }),
        found is Some <==> exists|at: int|
            0 <= at < receiver@.known.len() && (#[trigger] receiver@.known[at]).symbol_id == symbol_id,
{
    decoder::lemma_find_known(receiver@.known, symbol_id, receiver@.known.len() as int);
}

pub(crate) proof fn lemma_known_with(state: DecoderModel, kept: KnownModel, other: u32)
    requires
        state.valid(),
        state.max_symbols > 0,
        decoder::known_bytes(state.known, kept.symbol_id) is None,
    ensures
        ({
            let known = state.known_with(kept);
            &&& decoder::known_bytes(known, kept.symbol_id) == Some(kept.bytes)
            &&& other != kept.symbol_id ==> decoder::known_bytes(known, other) == (if state.known.len()
                >= state.max_symbols && state.known[0].symbol_id == other {
                None
            } else {
                decoder::known_bytes(state.known, other)
            })
            &&& known.len() <= state.max_symbols
        }),
{
    let before = state.known;
    let known = state.known_with(kept);
    let full = before.len() >= state.max_symbols;
    let shift: int = if full {
        1
    } else {
        0
    };
    assert(known.len() == before.len() + 1 - shift);
    assert forall|i: int| 0 <= i < known.len() - 1 implies #[trigger] known[i] == before[i + shift] by {}
    assert(known[known.len() - 1] == kept);
    decoder::lemma_find_known(known, kept.symbol_id, known.len() as int);
    decoder::lemma_find_known(known, other, known.len() as int);
    decoder::lemma_find_known(before, kept.symbol_id, before.len() as int);
    decoder::lemma_find_known(before, other, before.len() as int);
    if let Some(at) = decoder::find_known(known, kept.symbol_id, known.len() as int) {
        if at < known.len() - 1 {
            assert(before[at + shift].symbol_id == kept.symbol_id);
        }
    } else {
        assert(known[known.len() - 1].symbol_id != kept.symbol_id);
    }
    if other != kept.symbol_id {
        match (
            decoder::find_known(before, other, before.len() as int),
            decoder::find_known(known, other, known.len() as int),
        ) {
            (Some(a), Some(b)) => {
                assert(b < known.len() - 1);
                assert(before[b + shift].symbol_id == other);
                if a < b + shift {
                    assert(before[a].symbol_id != before[b + shift].symbol_id);
                } else if b + shift < a {
                    assert(before[b + shift].symbol_id != before[a].symbol_id);
                }
                if full && before[0].symbol_id == other {
                    assert(before[0].symbol_id != before[b + shift].symbol_id);
                }
            },
            (Some(a), None) => {
                if a - shift >= 0 {
                    assert(known[a - shift].symbol_id == other);
                }
            },
            (None, Some(b)) => {
                assert(before[b + shift].symbol_id == other);
            },
            (None, None) => {},
        }
    }
}

/// A source that was taken is known from then on, with its bytes; every other source that was
/// known still is, but for the oldest, which leaves where the window was full. A source of no
/// bytes, or of more than the largest symbol, is never taken.
pub proof fn law_taken_source_is_known<D: Fn(&[u8]) -> DecodedSource>(
    receiver: &mut Decoder,
    budget: &mut RecoveryMemoryBudget,
    symbol_id: u32,
    source: Bytes,
    work_budget: usize,
    decode: &D,
    batch: RecoveredBatch,
    before: Option<&[u8]>,
    after: Option<&[u8]>,
    other: u32,
    other_before: Option<&[u8]>,
    other_after: Option<&[u8]>,
)
    requires
        old(receiver).wf(),
        old(receiver)@.max_symbols > 0,
        other != symbol_id,
        call_ensures(Decoder::known_source, (&*old(receiver), symbol_id), before),
        call_ensures(Decoder::known_source, (&*old(receiver), other), other_before),
        call_ensures(
            Decoder::add_source::<D>,
            (receiver, budget, symbol_id, source, work_budget, decode),
            Ok::<RecoveredBatch, FecError>(batch),
        ),
        call_ensures(Decoder::known_source, (&*final(receiver), symbol_id), after),
        call_ensures(Decoder::known_source, (&*final(receiver), other), other_after),
    ensures
        1 <= storage::contents(source).len() <= old(receiver)@.max_symbol_bytes,
        after matches Some(bytes) && bytes@ == storage::contents(source),
        before matches Some(bytes) ==> bytes@ == storage::contents(source) && final(receiver)@ == old(receiver)@,
        other_before is None ==> other_after is None,
        other_before matches Some(bytes) ==> {
            ||| other_after matches Some(kept) && kept@ == bytes@
            ||| other_after is None && before is None
                && old(receiver)@.known.len() >= old(receiver)@.max_symbols
                && old(receiver)@.known[0].symbol_id == other
        },
{
    old(receiver).lemma_wf();
    let state = old(receiver)@;
    let bytes = storage::contents(source);
    if before is None {
        if state.rows.len() == 0 {
            let kept = choose|kept: KnownModel| #[trigger]
                decoder::source_stored(
                    symbol_id,
                    bytes,
                    state,
                    final(receiver)@,
                    *old(budget),
                    *final(budget),
                    kept,
                    Ok::<RecoveredBatch, FecError>(batch),
                );
            lemma_known_with(state, kept, other);
        } else {
            let symbols = decoder::source_outcome(
                state,
                symbol_id,
                bytes,
                decoder::clone_total(state.rows, state.rows.len() as int),
                work_budget as int,
            )->Ok_0;
            let kept = choose|kept: KnownModel| #[trigger]
                decoder::keeps(kept, symbol_id, bytes) && decoder::source_completes(
                    decode,
                    symbol_id,
                    bytes,
                    work_budget as int,
                    state,
                    final(receiver)@,
                    *old(budget),
                    *final(budget),
                    symbols,
                    kept,
                    Ok::<RecoveredBatch, FecError>(batch),
                );
            lemma_known_with(state, kept, other);
        }
    }
}

/// At a decoder without equations a new source of a right size is refused for want of memory
/// and for nothing else, whatever work it may do; and only where its bytes, or the
/// storage that it takes, would not fit the budget.
pub proof fn law_source_without_equations_needs_only_memory<D: Fn(&[u8]) -> DecodedSource>(
    receiver: &mut Decoder,
    budget: &mut RecoveryMemoryBudget,
    symbol_id: u32,
    source: Bytes,
    work_budget: usize,
    decode: &D,
    result: Result<RecoveredBatch, FecError>,
)
    requires
        old(receiver).wf(),
        old(receiver)@.rows.len() == 0,
        decoder::known_bytes(old(receiver)@.known, symbol_id) is None,
        1 <= storage::contents(source).len() <= old(receiver)@.max_symbol_bytes,
        call_ensures(
            Decoder::add_source::<D>,
            (receiver, budget, symbol_id, source, work_budget, decode),
            result,
        ),
    ensures
        match result {
            Ok(batch) => batch.items@.len() == 0,
            Err(error) => error == FecError::MemoryCapacity && exists|kept: KnownModel| #[trigger]
                decoder::keeps(kept, symbol_id, storage::contents(source)) && old(budget).used + (if kept.retained
                    > storage::contents(source).len() {
                    kept.retained
                } else {
                    storage::contents(source).len() as int
                }) > old(budget).limit,
        },
{
    old(receiver).lemma_wf();
    let state = old(receiver)@;
    assert(state.evicted_bytes() >= 0);
    if result is Err {
        let kept = choose|kept: KnownModel| #[trigger]
            decoder::source_stored(
                symbol_id,
                storage::contents(source),
                state,
                final(receiver)@,
                *old(budget),
                *final(budget),
                kept,
                result,
            );
        assert(decoder::keeps(kept, symbol_id, storage::contents(source)));
    }
}

/// A source is refused for its size exactly where it is empty or longer than the largest
/// symbol, and as a contradiction where other bytes are known of it; a source that is known
/// already changes nothing, and brings nothing new.
pub proof fn law_source_is_refused_for_size_or_contradiction<D: Fn(&[u8]) -> DecodedSource>(
    receiver: &mut Decoder,
    budget: &mut RecoveryMemoryBudget,
    symbol_id: u32,
    source: Bytes,
    work_budget: usize,
    decode: &D,
    result: Result<RecoveredBatch, FecError>,
    known: Option<&[u8]>,
)
    requires
        call_ensures(Decoder::known_source, (&*old(receiver), symbol_id), known),
        call_ensures(
            Decoder::add_source::<D>,
            (receiver, budget, symbol_id, source, work_budget, decode),
            result,
        ),
    ensures
        storage::contents(source).len() == 0 || storage::contents(source).len() > old(receiver)@.max_symbol_bytes
            ==> result == Err::<RecoveredBatch, FecError>(FecError::InvalidSymbolSize),
        1 <= storage::contents(source).len() <= old(receiver)@.max_symbol_bytes ==> (known matches Some(bytes) ==> (
        if bytes@ == storage::contents(source) {
            (result matches Ok(batch) && batch.items@.len() == 0) && final(receiver)@ == old(receiver)@
                && *final(budget) == *old(budget)
        } else {
            result == Err::<RecoveredBatch, FecError>(FecError::ContradictoryRepair)
        })),
        result is Err ==> final(receiver)@ == old(receiver)@ && *final(budget) == *old(budget),
{
}

// ---------------------------------------------------------------------------
// Work and memory
// ---------------------------------------------------------------------------

/// Adding a multiple of one symbol to another takes one step for each byte of it: it is done
/// exactly where it is no longer than the other and the steps fit the budget, and the work is
/// then counted, byte for byte.
pub proof fn law_work_is_counted_by_the_byte(
    target: &mut Vec<u8>,
    source: &[u8],
    factor: u8,
    work: &mut usize,
    budget: usize,
    result: Result<(), FecError>,
    at: int,
)
    requires
        *old(work) + source@.len() <= usize::MAX,
        0 <= at < source@.len(),
        call_ensures(matrix::xor_scaled, (target, source, factor, work, budget), result),
    ensures
        result is Ok <==> source@.len() <= old(target)@.len() && *old(work) + source@.len() <= budget,
        source@.len() > old(target)@.len() ==> result == Err::<(), FecError>(FecError::InvalidSymbolSize),
        result is Ok ==> {
            &&& *final(work) == *old(work) + source@.len()
            &&& final(target)@.len() == old(target)@.len()
            &&& final(target)@[at] == old(target)@[at] ^ gf256::product(source@[at], factor)
        },
{
}

/// The scratch room of a decoder covers, for each equation that it has and may get, and for
/// one more, the equation itself with a whole symbol and all terms; for each of them what a
/// recovered symbol takes, twice its bytes among it; and the source.
pub proof fn law_scratch_room_covers_every_equation(
    receiver: &Decoder,
    additional_rows: usize,
    additional_coefficients: usize,
    source_bytes: usize,
    fewer: usize,
    need: usize,
    less: usize,
)
    requires
        fewer <= source_bytes,
        call_ensures(
            Decoder::scratch_memory_bytes,
            (receiver, additional_rows, additional_coefficients, source_bytes),
            Ok::<usize, FecError>(need),
        ),
        call_ensures(
            Decoder::scratch_memory_bytes,
            (receiver, additional_rows, additional_coefficients, fewer),
            Ok::<usize, FecError>(less),
        ),
    ensures
        need - less == source_bytes - fewer,
        ({
            let count = receiver@.rows.len() + additional_rows;
            let size = receiver@.max_symbol_bytes;
            let terms = term_count(receiver@.rows) + additional_coefficients;
            let equation = vstd::layout::size_of::<Row>() + size + terms * vstd::layout::size_of::<(u32, u8)>();
            let recovered = 2 * size + vstd::layout::size_of::<(u32, Bytes)>() + vstd::layout::size_of::<
                RecoveredSource,
            >() + 32 * vstd::layout::size_of::<SourceRecord<'static>>();
            need == (count + 1) * equation + count * recovered + source_bytes
        }),
{
    let rows = receiver@.rows;
    lemma_term_count(rows, rows.len() as int);
    assert(rows.take(rows.len() as int) =~= rows);
    let count = rows.len() + additional_rows;
    let equation = decoder::row_need(rows, receiver@.max_symbol_bytes, additional_coefficients as int);
    assert((count + 1) * equation == count * equation + equation) by (nonlinear_arith);
}

/// How many terms these equations hold together.
pub open spec fn term_count(rows: Seq<RowModel>) -> int
    decreases rows.len(),
{
    if rows.len() == 0 {
        0
    } else {
        term_count(rows.drop_last()) + rows.last().coefficients.len()
    }
}

proof fn lemma_term_count(rows: Seq<RowModel>, end: int)
    requires
        0 <= end <= rows.len(),
    ensures
        decoder::coefficient_total(rows, end) == term_count(rows.take(end)),
    decreases end,
{
    if end > 0 {
        lemma_term_count(rows, end - 1);
        assert(rows.take(end).drop_last() =~= rows.take(end - 1));
    }
}

/// Memory that is reserved is counted until it is released, and never beyond the limit: a
/// reservation is made exactly where it fits, and giving it back leaves what was used before.
pub proof fn law_reserved_memory_comes_back(
    reserving: &mut RecoveryMemoryBudget,
    bytes: usize,
    charge: Option<RecoveryCharge>,
    giving: &mut RecoveryMemoryBudget,
)
    requires
        call_ensures(RecoveryMemoryBudget::reserve, (reserving, bytes), charge),
        *old(giving) == *final(reserving),
        charge is Some ==> call_ensures(RecoveryMemoryBudget::discard, (giving, charge->0), ()),
    ensures
        charge is Some <==> old(reserving).used + bytes <= old(reserving).limit,
        charge matches Some(given) ==> given.bytes == bytes && given.owner == old(reserving).id && final(reserving).used
            == old(reserving).used + bytes && final(giving).used == old(reserving).used,
        charge is None ==> *final(reserving) == *old(reserving),
        final(reserving).limit == old(reserving).limit && final(reserving).id == old(reserving).id,
{
}

/// A charge that grows takes what it lacks from the budget, and one that shrinks gives back
/// what it has too much; the budget and the charge move together.
pub proof fn law_charges_move_with_the_budget(
    growing: &mut RecoveryMemoryBudget,
    larger: &mut RecoveryCharge,
    wanted: usize,
    grown: bool,
    shrinking: &mut RecoveryMemoryBudget,
    smaller: &mut RecoveryCharge,
    kept: usize,
)
    requires
        call_ensures(RecoveryMemoryBudget::grow, (growing, larger, wanted), grown),
        old(smaller).bytes <= old(shrinking).used,
        call_ensures(RecoveryMemoryBudget::shrink, (shrinking, smaller, kept), ()),
    ensures
        grown <==> wanted <= old(larger).bytes
            || old(growing).used + (wanted - old(larger).bytes) <= old(growing).limit,
        final(growing).used - old(growing).used == final(larger).bytes - old(larger).bytes,
        grown ==> final(larger).bytes >= wanted && final(larger).bytes >= old(larger).bytes,
        grown ==> final(larger).bytes == wanted || final(larger).bytes == old(larger).bytes,
        !grown ==> *final(growing) == *old(growing) && *final(larger) == *old(larger),
        final(shrinking).used - old(shrinking).used == final(smaller).bytes - old(smaller).bytes,
        final(smaller).bytes <= kept || final(smaller).bytes == old(smaller).bytes,
        final(smaller).bytes <= old(smaller).bytes,
        kept <= old(smaller).bytes ==> final(smaller).bytes == kept,
{
}

/// Splitting a charge loses nothing: the part and what is left make up the whole, with one
/// owner; a part larger than the whole is not given.
pub proof fn law_split_charges_add_up(
    charge: &mut RecoveryCharge,
    bytes: usize,
    part: Option<RecoveryCharge>,
    moving: &mut RecoveryCharge,
    done: bool,
)
    requires
        call_ensures(RecoveryCharge::split, (charge, bytes), part),
        call_ensures(RecoveryCharge::transfer, (moving, bytes), done),
    ensures
        part is Some <==> bytes <= old(charge).bytes,
        part matches Some(given) ==> given.bytes == bytes && given.bytes + final(charge).bytes == old(charge).bytes
            && given.owner == old(charge).owner && final(charge).owner == old(charge).owner,
        part is None ==> *final(charge) == *old(charge),
        done <==> bytes <= old(moving).bytes,
        done ==> final(moving).bytes + bytes == old(moving).bytes,
        !done ==> *final(moving) == *old(moving),
{
}

/// A decoder that is given up gives back all the memory that it holds.
pub proof fn law_discarded_decoder_gives_back_its_memory(
    receiver: Decoder,
    budget: &mut RecoveryMemoryBudget,
    held: u128,
)
    requires
        old(budget).used >= receiver@.held(),
        receiver@.held() >= 0,
        call_ensures(Decoder::held_bytes, (&receiver,), held),
        call_ensures(Decoder::discard, (receiver, budget), ()),
    ensures
        final(budget).used + held == old(budget).used,
        final(budget).limit == old(budget).limit,
{
}

/// A batch hands out its sources one by one, each once, and is empty behind the last.
pub proof fn law_batch_hands_out_each_source_once(
    batch: &mut RecoveredBatch,
    source: Option<RecoveredSource>,
    before: bool,
    after: bool,
)
    requires
        call_ensures(RecoveredBatch::is_empty, (&*old(batch),), before),
        call_ensures(RecoveredBatch::pop, (batch,), source),
        call_ensures(RecoveredBatch::is_empty, (&*final(batch),), after),
    ensures
        source is None <==> before,
        source matches Some(item) ==> final(batch).items@.push(item) == old(batch).items@,
        source is Some ==> (after <==> old(batch).items@.len() == 1),
        before ==> after,
        final(batch).charge == old(batch).charge,
{
    if source is Some {
        assert(old(batch).items@.drop_last().push(source->0) =~= old(batch).items@);
    }
}

/// Room for handing out a batch is reserved exactly where it fits the budget; the batch then
/// has at least that much beyond what its sources take, and the budget counts it.
pub proof fn law_room_for_dispatch_is_charged(
    batch: &mut RecoveredBatch,
    budget: &mut RecoveryMemoryBudget,
    bytes: usize,
    result: Result<(), FecError>,
)
    requires
        old(batch).retained_bytes + bytes <= usize::MAX,
        call_ensures(RecoveredBatch::reserve_dispatch, (batch, budget, bytes), result),
    ensures
        result is Ok ==> final(batch).charge.bytes >= old(batch).retained_bytes + bytes,
        final(budget).used - old(budget).used == final(batch).charge.bytes - old(batch).charge.bytes,
        result is Err ==> *final(budget) == *old(budget)
            && old(budget).used + (old(batch).retained_bytes + bytes - old(batch).charge.bytes) > old(budget).limit,
        result is Err ==> result == Err::<(), FecError>(FecError::MemoryCapacity),
        final(budget).used <= final(budget).limit || *final(budget) == *old(budget),
{
}

/// Terms are counted one by one over all equations, and copying them costs one step for each
/// term and each byte.
pub proof fn law_equations_are_counted_in_full(
    rows: Vec<Row>,
    additional: usize,
    count: Result<usize, FecError>,
    work: Result<usize, FecError>,
)
    requires
        call_ensures(decoder::matrix_coefficient_count, (&rows, additional), count),
        call_ensures(decoder::matrix_clone_work, (&rows,), work),
    ensures
        ({
            let models = matrix::models(rows@);
            &&& additional + term_count(models) <= usize::MAX ==> (count matches Ok(total) && total == additional
                + term_count(models))
            &&& additional + term_count(models) > usize::MAX
                ==> count == Err::<usize, FecError>(FecError::MemoryCapacity)
            &&& volume(models) <= usize::MAX ==> (work matches Ok(total) && total == volume(models))
            &&& volume(models) > usize::MAX ==> work == Err::<usize, FecError>(FecError::WorkBudget)
        }),
{
    let models = matrix::models(rows@);
    lemma_term_count(models, models.len() as int);
    lemma_volume(models, models.len() as int);
    assert(models.take(models.len() as int) =~= models);
}

/// The storage of equations is a place for each that may be kept, and for each that is kept a
/// whole symbol and all terms; it is refused only where it cannot be counted.
pub proof fn law_storage_of_equations_is_counted_in_full(
    row_capacity: usize,
    kept: usize,
    coefficient_capacity: usize,
    max_symbol_bytes: usize,
    result: Result<usize, FecError>,
)
    requires
        call_ensures(
            decoder::row_storage_bytes,
            (row_capacity, kept, coefficient_capacity, max_symbol_bytes),
            result,
        ),
    ensures
        ({
            let each = max_symbol_bytes + coefficient_capacity * vstd::layout::size_of::<(u32, u8)>();
            let total = row_capacity * vstd::layout::size_of::<Row>() + kept * each;
            &&& total <= usize::MAX ==> (result matches Ok(bytes) && bytes == total)
            &&& total > usize::MAX ==> result == Err::<usize, FecError>(FecError::MemoryCapacity)
        }),
{
}

} // verus!
