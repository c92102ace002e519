//! What the decoder keeps of what it was given or recovered, and what it pays for it.
use crate::fec::bounds;
use crate::fec::decoder;
use crate::fec::decoder::{
    Admission, Combined, DecodedSource, Decoder, KnownModel, KnownSource, RecoveredBatch, RecoveredSource,
};
use crate::fec::matrix;
use crate::fec::matrix::{FecError, RowModel};
use crate::recovery::{RecoveryCharge, RecoveryMemoryBudget};
use crate::storage;
use bytes::Bytes;
use vstd::prelude::*;

verus! {

/// A source is admitted beside equations exactly where there is enough work left to copy them
/// and enough memory left for the scratch room; it is then charged, and otherwise not.
pub proof fn law_source_within_bounds_is_admitted(
    receiver: &Decoder,
    budget: &mut RecoveryMemoryBudget,
    source_bytes: usize,
    work_budget: usize,
    scratch: Result<usize, FecError>,
    result: Result<Admission, FecError>,
)
    requires
        call_ensures(Decoder::scratch_memory_bytes, (receiver, 0usize, 0usize, source_bytes), scratch),
        call_ensures(Decoder::admit_source, (receiver, budget, source_bytes, work_budget), result),
    ensures
        if bounds::volume(receiver@.rows) > work_budget {
            result == Err::<Admission, FecError>(FecError::WorkBudget)
        } else if scratch is Err || old(budget).used + scratch->Ok_0 > old(budget).limit {
            result == Err::<Admission, FecError>(FecError::MemoryCapacity)
        } else {
            &&& result matches Ok(admission) && admission.scratch.bytes == scratch->Ok_0 && admission.work
                == bounds::volume(receiver@.rows)
            &&& final(budget).used == old(budget).used + scratch->Ok_0
        },
        result is Err ==> *final(budget) == *old(budget),
{
    bounds::lemma_volume(receiver@.rows, receiver@.rows.len() as int);
    assert(receiver@.rows.take(receiver@.rows.len() as int) =~= receiver@.rows);
}

proof fn lemma_canonical_items(symbols: Seq<(u32, Seq<u8>)>, decoded: Seq<DecodedSource>, end: int, index: int)
    requires
        0 <= index < end <= symbols.len(),
    ensures
        decoder::canonical_items(symbols, decoded, end) matches Ok(items) ==> {
            &&& items.len() == end
            &&& 0 <= index < decoded.len()
            &&& decoded[index] matches DecodedSource::Symbol { symbol_id, consumed } && symbol_id == symbols[index].0
                && consumed <= symbols[index].1.len() && items[index] == (
                symbols[index].0,
                symbols[index].1.take(consumed as int),
            )
        },
    decreases end,
{
    if decoder::canonical_items(symbols, decoded, end) is Ok {
        if end > 1 {
            lemma_canonical_items(
                symbols,
                decoded,
                end - 1,
                if index < end - 1 {
                    index
                } else {
                    0
                },
            );
        }
    }
}

proof fn lemma_canonical_items_hold(symbols: Seq<(u32, Seq<u8>)>, decoded: Seq<DecodedSource>, end: int)
    requires
        0 <= end <= symbols.len(),
        decoded.len() == symbols.len(),
        forall|index: int|
            0 <= index < symbols.len() ==> reads_itself(#[trigger] symbols[index], decoded[index]),
    ensures
        decoder::canonical_items(symbols, decoded, end) is Ok,
    decreases end,
{
    if end > 0 {
        lemma_canonical_items_hold(symbols, decoded, end - 1);
        assert(reads_itself(symbols[end - 1], decoded[end - 1]));
    }
}

/// Whether a recovered symbol reads as a source with its own number.
pub open spec fn reads_itself(symbol: (u32, Seq<u8>), reading: DecodedSource) -> bool {
    reading matches DecodedSource::Symbol { symbol_id, consumed } && symbol_id == symbol.0 && consumed <= symbol.1.len()
}

/// Recovered symbols are taken exactly where each of them reads as a source with its own number
/// that lies within it; each is then cut to what was read. Only memory can be lacking besides.
pub proof fn law_recovered_symbols_must_read_as_themselves(
    recovered: Vec<(u32, Vec<u8>)>,
    decoded: Vec<DecodedSource>,
    result: Result<Vec<RecoveredSource>, FecError>,
    index: int,
)
    requires
        decoded@.len() == recovered@.len(),
        call_ensures(decoder::canonical_recovered, (&recovered, &decoded), result),
        0 <= index < recovered@.len(),
    ensures
        result matches Ok(items) ==> {
            &&& items@.len() == recovered@.len()
            &&& items@[index].symbol_id == recovered@[index].0
            &&& decoded@[index] matches DecodedSource::Symbol { symbol_id, consumed }
                && symbol_id == recovered@[index].0
                && consumed <= recovered@[index].1@.len() && storage::contents(items@[index].bytes)
                == recovered@[index].1@.take(consumed as int)
        },
        (forall|at: int|
            0 <= at < recovered@.len() ==> reads_itself(
                matrix::symbols_of(recovered@)[at],
                #[trigger] decoded@[at],
            )) && result is Err ==> result == Err::<Vec<RecoveredSource>, FecError>(FecError::MemoryCapacity)
            && decoder::batch_refused(),
{
    let symbols = matrix::symbols_of(recovered@);
    lemma_canonical_items(symbols, decoded@, symbols.len() as int, index);
    if let Ok(items) = result {
        assert(decoder::batch_items(items@)[index]
            == (items@[index].symbol_id, storage::contents(items@[index].bytes)));
    }
    if forall|at: int| 0 <= at < recovered@.len() ==> reads_itself(symbols[at], #[trigger] decoded@[at]) {
        assert forall|at: int| 0 <= at < symbols.len() implies reads_itself(#[trigger] symbols[at], decoded@[at]) by {
            assert(reads_itself(symbols[at], decoded@[at]));
        }
        lemma_canonical_items_hold(symbols, decoded@, symbols.len() as int);
    }
}

/// A source is stored in the window exactly where the budget has room for it, beside what the
/// oldest gives up; it is then known, and the budget counts what the window grew by.
pub proof fn law_stored_source_is_paid_for(
    receiver: &mut Decoder,
    budget: &mut RecoveryMemoryBudget,
    source: KnownSource,
    result: Result<(), FecError>,
    found: Option<&[u8]>,
)
    requires
        old(receiver).wf(),
        old(receiver)@.max_symbols > 0,
        old(budget).used >= old(receiver)@.held(),
        old(budget).used <= old(budget).limit,
        decoder::known_bytes(old(receiver)@.known, source.symbol_id) is None,
        source.retained_bytes >= storage::contents(source.bytes).len(),
        call_ensures(Decoder::store_known, (receiver, budget, source), result),
        call_ensures(Decoder::known_source, (&*final(receiver), source.symbol_id), found),
    ensures
        result is Ok ==> (found matches Some(bytes) && bytes@ == storage::contents(source.bytes)),
        result is Ok ==> final(receiver)@.rows == old(receiver)@.rows,
        result is Err ==> *final(budget) == *old(budget) && final(receiver)@ == old(receiver)@ && result == Err::<
            (),
            FecError,
        >(FecError::MemoryCapacity),
        old(budget).used + source.retained_bytes <= old(budget).limit ==> result is Ok,
        result is Ok ==> final(budget).used - old(budget).used == final(receiver)@.held() - old(receiver)@.held(),
        final(budget).used <= final(budget).limit,
{
    old(receiver).lemma_wf();
    let state = old(receiver)@;
    decoder::lemma_valid_bytes(state);
    decoder::lemma_known_with(state, source@);
    bounds::lemma_known_with(state, source@, source.symbol_id);
}

/// A recovered source that was paid for is known from then on; its charge is used up or given
/// back either way. One that is known already changes nothing, and other bytes for it are a
/// contradiction.
pub proof fn law_recovered_source_is_known(
    receiver: &mut Decoder,
    budget: &mut RecoveryMemoryBudget,
    symbol_id: u32,
    source: Bytes,
    charge: RecoveryCharge,
    result: Result<(), FecError>,
    before: Option<&[u8]>,
    after: Option<&[u8]>,
)
    requires
        old(receiver).wf(),
        old(receiver)@.max_symbols > 0,
        charge.owner == old(budget).id,
        old(budget).used >= old(receiver)@.held() + charge.bytes,
        call_ensures(Decoder::known_source, (&*old(receiver), symbol_id), before),
        call_ensures(
            Decoder::commit_recovered_precharged,
            (receiver, budget, symbol_id, source, charge),
            result,
        ),
        call_ensures(Decoder::known_source, (&*final(receiver), symbol_id), after),
    ensures
        result is Ok ==> (after matches Some(bytes) && bytes@ == storage::contents(source)),
        result is Ok ==> 1 <= storage::contents(source).len() <= old(receiver)@.max_symbol_bytes && charge.bytes
            >= storage::contents(source).len(),
        result is Err ==> final(receiver)@ == old(receiver)@ && final(budget).used == old(budget).used - charge.bytes,
        before is Some ==> final(receiver)@ == old(receiver)@ && final(budget).used == old(budget).used - charge.bytes,
        1 <= storage::contents(source).len() <= old(receiver)@.max_symbol_bytes && charge.bytes >= storage::contents(
            source,
        ).len() ==> (before matches Some(bytes) ==> (result is Ok <==> bytes@ == storage::contents(source))),
        storage::contents(source).len() == 0 || storage::contents(source).len() > old(receiver)@.max_symbol_bytes
            ==> result == Err::<(), FecError>(FecError::InvalidSymbolSize),
        result is Ok ==> final(budget).used - (old(budget).used - charge.bytes)
            == final(receiver)@.held() - old(receiver)@.held(),
{
    old(receiver).lemma_wf();
    let state = old(receiver)@;
    decoder::lemma_valid_bytes(state);
    let bytes = storage::contents(source);
    if result is Ok && before is None {
        let returned = old(budget).with_used(old(budget).used - charge.bytes);
        let kept = choose|kept: KnownModel| #[trigger]
            decoder::keeps(kept, symbol_id, bytes) && decoder::own_storage(source, kept.retained) && (if kept.retained
                > charge.bytes && returned.used + kept.retained > old(budget).limit {
                &&& result == Err::<(), FecError>(FecError::MemoryCapacity)
                &&& final(receiver)@ == state
                &&& *final(budget) == returned
            } else {
                &&& result is Ok
                &&& decoder::stores(state, final(receiver)@, kept)
                &&& *final(budget) == returned.with_used(returned.used + kept.retained - state.evicted_bytes())
            });
        decoder::lemma_known_with(state, kept);
        bounds::lemma_known_with(state, kept, symbol_id);
    }
}

/// A batch gives up parts of its charge without losing any: what is taken and what is left make
/// up what it had, and no more is taken than there is.
pub proof fn law_batch_gives_up_parts_of_its_charge(
    retained: &mut RecoveredBatch,
    bytes: usize,
    part: Result<RecoveryCharge, FecError>,
    dispatching: &mut RecoveredBatch,
    taken: Result<RecoveryCharge, FecError>,
    shrinking: &mut RecoveredBatch,
    budget: &mut RecoveryMemoryBudget,
)
    requires
        old(retained).retained_bytes <= old(retained).charge.bytes,
        call_ensures(RecoveredBatch::take_retained_charge, (retained, bytes), part),
        call_ensures(RecoveredBatch::take_dispatch_charge, (dispatching, bytes), taken),
        old(shrinking).charge.bytes <= old(budget).used,
        call_ensures(RecoveredBatch::shrink_after_state_transition, (shrinking, budget), ()),
    ensures
        part is Ok <==> bytes <= old(retained).retained_bytes,
        part matches Ok(charge) ==> charge.bytes == bytes
            && charge.bytes + final(retained).charge.bytes == old(retained).charge.bytes
            && final(retained).retained_bytes + bytes == old(retained).retained_bytes,
        part is Err ==> final(retained).charge == old(retained).charge
            && final(retained).retained_bytes == old(retained).retained_bytes,
        taken is Ok <==> bytes <= old(dispatching).charge.bytes,
        taken matches Ok(charge) ==> charge.bytes == bytes
            && charge.bytes + final(dispatching).charge.bytes == old(dispatching).charge.bytes,
        final(shrinking).charge.bytes <= old(shrinking).charge.bytes,
        old(shrinking).retained_bytes <= old(shrinking).charge.bytes
            ==> final(shrinking).charge.bytes == old(shrinking).retained_bytes,
        old(budget).used - final(budget).used == old(shrinking).charge.bytes - final(shrinking).charge.bytes,
{
}

proof fn lemma_unsolved_rows(rows: Seq<RowModel>, end: int)
    requires
        0 <= end <= rows.len(),
    ensures
        forall|at: int|
            0 <= at < decoder::unsolved(rows, end).len()
                ==> (#[trigger] decoder::unsolved(rows, end)[at]).coefficients.len()
                >= 2,
        forall|at: int|
            0 <= at < end && (#[trigger] rows[at]).coefficients.len() >= 2
                ==> decoder::unsolved(rows, end).contains(rows[at]),
        decoder::unsolved(rows, end).len() <= end,
    decreases end,
{
    if end > 0 {
        lemma_unsolved_rows(rows, end - 1);
        let prior = decoder::unsolved(rows, end - 1);
        let row = rows[end - 1];
        assert forall|at: int| 0 <= at < end && (#[trigger] rows[at]).coefficients.len() >= 2 implies decoder::unsolved(
            rows,
            end,
        ).contains(rows[at]) by {
            if at < end - 1 {
                assert(prior.contains(rows[at]));
                let place = choose|place: int| 0 <= place < prior.len() && prior[place] == rows[at];
                assert(decoder::unsolved(rows, end)[place] == rows[at]);
            } else {
                assert(decoder::unsolved(rows, end)[prior.len() as int] == row);
            }
        }
    }
}

/// A decoder keeps only equations over two or more missing sources, if it had no others: one
/// over a single source is solved, and one over none says nothing.
pub proof fn law_kept_equations_have_two_unknowns<D: Fn(&[u8]) -> DecodedSource>(
    receiver: &mut Decoder,
    budget: &mut RecoveryMemoryBudget,
    first_symbol_id: u32,
    span: u16,
    repair_id: u32,
    seed: u32,
    coded: &[u8],
    work_budget: usize,
    decode: &D,
    result: Result<RecoveredBatch, FecError>,
    index: int,
)
    requires
        forall|at: int|
            0 <= at < old(receiver)@.rows.len() ==> (#[trigger] old(receiver)@.rows[at]).coefficients.len() >= 2,
        call_ensures(
            Decoder::add_repair::<D>,
            (receiver, budget, first_symbol_id, span, repair_id, seed, coded, work_budget, decode),
            result,
        ),
        0 <= index < final(receiver)@.rows.len(),
    ensures
        final(receiver)@.rows[index].coefficients.len() >= 2,
        final(receiver)@.known == old(receiver)@.known,
        final(receiver)@.rows.len() <= old(receiver)@.rows.len() + 1,
{
    let state = old(receiver)@;
    let work = decoder::repair_work(state, span, coded@.len() as int);
    let rows = decoder::repaired_rows(
        state,
        first_symbol_id,
        span,
        repair_id,
        seed,
        coded@,
        work,
        work_budget as int,
    );
    lemma_unsolved_rows(rows, rows.len() as int);
    let equation = decoder::gathered(
        state.known,
        first_symbol_id,
        span as int,
        repair_id,
        seed,
        coded@,
        work,
        work_budget as int,
    )->Ok_0;
    lemma_eliminated_length(
        state.rows.push(RowModel { coefficients: equation.coefficients, data: equation.data }),
        0,
    );
    assert(final(receiver)@.rows == state.rows || final(receiver)@.rows == decoder::unsolved(rows, rows.len() as int));
}

proof fn lemma_eliminated_length(rows: Seq<RowModel>, pivot: int)
    ensures
        matrix::eliminated(rows, pivot).len() == rows.len(),
    decreases rows.len() - pivot,
{
    if pivot < rows.len() {
        if let Some(best) = matrix::best_pivot(rows, pivot, rows.len() as int) {
            lemma_eliminated_length(matrix::pivot_step(rows, pivot, best), pivot + 1);
        }
    }
}

proof fn lemma_first_bad_reading(symbols: Seq<(u32, Seq<u8>)>, decoded: Seq<DecodedSource>, end: int) -> (at: int)
    requires
        0 <= end <= symbols.len(),
        decoded.len() == symbols.len(),
        decoder::canonical_items(symbols, decoded, end) is Err,
    ensures
        0 <= at < end,
        !reads_itself(symbols[at], decoded[at]),
        forall|before: int| 0 <= before < at ==> reads_itself(#[trigger] symbols[before], decoded[before]),
        decoder::canonical_items(symbols, decoded, end)->Err_0 == (if decoded[at] is Oversized {
            FecError::MemoryCapacity
        } else {
            FecError::ContradictoryRepair
        }),
    decreases end,
{
    if decoder::canonical_items(symbols, decoded, end - 1) is Err {
        lemma_first_bad_reading(symbols, decoded, end - 1)
    } else {
        assert forall|before: int| 0 <= before < end - 1
            implies reads_itself(#[trigger] symbols[before], decoded[before]) by {
            lemma_canonical_items(symbols, decoded, end - 1, before);
        }
        end - 1
    }
}

/// Recovered symbols that do not read as themselves are refused for the first of them: for want
/// of memory where it holds too many records, and as a contradiction otherwise.
pub proof fn law_first_bad_reading_decides(
    recovered: Vec<(u32, Vec<u8>)>,
    decoded: Vec<DecodedSource>,
    error: FecError,
)
    requires
        decoded@.len() == recovered@.len(),
        !decoder::batch_refused(),
        call_ensures(
            decoder::canonical_recovered,
            (&recovered, &decoded),
            Err::<Vec<RecoveredSource>, FecError>(error),
        ),
    ensures
        exists|at: int|
            0 <= at < recovered@.len() && !reads_itself(matrix::symbols_of(recovered@)[at], #[trigger] decoded@[at])
                && error == (if decoded@[at] is Oversized {
                FecError::MemoryCapacity
            } else {
                FecError::ContradictoryRepair
            }),
{
    let symbols = matrix::symbols_of(recovered@);
    let at = lemma_first_bad_reading(symbols, decoded@, symbols.len() as int);
    assert(!reads_itself(symbols[at], decoded@[at]));
}

/// Keeping equations needs only what they grow by: where nothing was recovered, and the scratch
/// room covers the growth of the equations that are left, they are kept, and the rest of the
/// scratch room is given back.
pub proof fn law_kept_equations_are_paid_by_their_growth(
    receiver: &mut Decoder,
    budget: &mut RecoveryMemoryBudget,
    combined: Combined,
    decoded: &Vec<DecodedSource>,
    scratch: RecoveryCharge,
    row_capacity: usize,
    coefficient_capacity: usize,
    kept: usize,
    after: usize,
    result: Result<RecoveredBatch, FecError>,
)
    requires
        old(budget).used <= old(budget).limit,
        old(budget).used >= scratch.bytes,
        old(receiver)@.row_bytes >= 0,
        combined.recovered@.len() == 0,
        kept == decoder::unsolved(matrix::models(combined.rows@), combined.rows@.len() as int).len(),
        call_ensures(
            decoder::row_storage_bytes,
            (row_capacity, kept, coefficient_capacity, old(receiver)@.max_symbol_bytes as usize),
            Ok::<usize, FecError>(after),
        ),
        0 <= old(receiver)@.max_symbol_bytes <= usize::MAX,
        after <= old(receiver)@.row_bytes + scratch.bytes,
        !decoder::batch_refused(),
        call_ensures(
            Decoder::complete,
            (receiver, budget, combined, decoded, scratch, row_capacity, coefficient_capacity, None::<KnownSource>),
            result,
        ),
    ensures
        result matches Ok(batch) && batch.items@.len() == 0,
        final(receiver)@.row_bytes == after,
        final(receiver)@.known == old(receiver)@.known,
        old(budget).used - scratch.bytes + (after - old(receiver)@.row_bytes) >= 0
            ==> final(budget).used == old(budget).used - scratch.bytes + (after - old(receiver)@.row_bytes),
{
    let symbols = matrix::symbols_of(combined.recovered@);
    assert(symbols.len() == 0);
    assert(decoder::canonical_items(symbols, decoded@, 0) == Ok::<Seq<(u32, Seq<u8>)>, FecError>(Seq::empty()));
    let items = Seq::<(u32, Seq<u8>)>::empty();
    assert(decoder::item_bytes(items, 0) == 0);
    assert(decoder::batch_bytes(items) == 0) by {
        assert(0 * vstd::layout::size_of::<RecoveredSource>() == 0) by (nonlinear_arith);
    }
    assert(!decoder::conflicts(old(receiver)@.known, items));
    if let Ok(batch) = result {
        assert(decoder::batch_items(batch.items@).len() == batch.items@.len());
    }
}

proof fn lemma_gathered_size(
    known: Seq<KnownModel>,
    first: u32,
    count: int,
    repair_id: u32,
    seed: u32,
    coded: Seq<u8>,
    work: int,
    budget: int,
)
    requires
        forall|at: int| 0 <= at < known.len() ==> (#[trigger] known[at]).bytes.len() <= coded.len(),
    ensures
        match decoder::gathered(known, first, count, repair_id, seed, coded, work, budget) {
            Ok(equation) => equation.data.len() == coded.len(),
            Err(error) => error == FecError::WorkBudget,
        },
    decreases count,
{
    if count > 0 {
        lemma_gathered_size(known, first, count - 1, repair_id, seed, coded, work, budget);
        let id = crate::fec::symbol::symbol_at(first, count - 1);
        decoder::lemma_find_known(known, id, known.len() as int);
    }
}

/// A repair that is at least as long as every source that the decoder knows is never refused for
/// its size, as long as it is no longer than the largest symbol: it is only refused for want of
/// a row, of work or of memory, or because it contradicts what is known.
pub proof fn law_long_enough_repair_is_not_refused_for_its_size<D: Fn(&[u8]) -> DecodedSource>(
    receiver: &mut Decoder,
    budget: &mut RecoveryMemoryBudget,
    first_symbol_id: u32,
    span: u16,
    repair_id: u32,
    seed: u32,
    coded: &[u8],
    work_budget: usize,
    decode: &D,
    error: FecError,
)
    requires
        1 <= span <= 256,
        1 <= coded@.len() <= old(receiver)@.max_symbol_bytes,
        forall|at: int|
            0 <= at < old(receiver)@.known.len() ==> (#[trigger] old(receiver)@.known[at]).bytes.len() <= coded@.len(),
        call_ensures(
            Decoder::add_repair::<D>,
            (receiver, budget, first_symbol_id, span, repair_id, seed, coded, work_budget, decode),
            Err::<RecoveredBatch, FecError>(error),
        ),
    ensures
        error != FecError::InvalidSpan,
        error != FecError::InvalidSymbolSize,
        error == FecError::RowCapacity ==> old(receiver)@.rows.len() == old(receiver)@.max_rows,
{
    let state = old(receiver)@;
    let work = decoder::repair_work(state, span, coded@.len() as int);
    lemma_gathered_size(
        state.known,
        first_symbol_id,
        span as int,
        repair_id,
        seed,
        coded@,
        work,
        work_budget as int,
    );
    let outcome = decoder::repair_outcome(
        state,
        first_symbol_id,
        span,
        repair_id,
        seed,
        coded@,
        work,
        work_budget as int,
    );
    if let Ok(Some(found)) = outcome {
        bounds::lemma_item_errors(found);
    }
}

proof fn lemma_substituted_size(rows: Seq<RowModel>, count: int, id: u32, bytes: Seq<u8>, work: int, budget: int)
    requires
        0 <= count <= rows.len(),
        forall|at: int| 0 <= at < rows.len() ==> bytes.len() <= (#[trigger] rows[at]).data.len(),
    ensures
        decoder::substituted(rows, count, id, bytes, work, budget) matches Err(error) ==> error == FecError::WorkBudget,
    decreases count,
{
    if count > 0 {
        lemma_substituted_size(rows, count - 1, id, bytes, work, budget);
    }
}

/// A source that is no longer than the equations of the decoder, nor than the largest symbol, is
/// never refused for its size.
pub proof fn law_short_enough_source_is_not_refused_for_its_size<D: Fn(&[u8]) -> DecodedSource>(
    receiver: &mut Decoder,
    budget: &mut RecoveryMemoryBudget,
    symbol_id: u32,
    source: Bytes,
    work_budget: usize,
    decode: &D,
    error: FecError,
)
    requires
        1 <= storage::contents(source).len() <= old(receiver)@.max_symbol_bytes,
        forall|at: int|
            0 <= at < old(receiver)@.rows.len() ==> storage::contents(source).len() <= (
            #[trigger] old(receiver)@.rows[at]).data.len(),
        call_ensures(
            Decoder::add_source::<D>,
            (receiver, budget, symbol_id, source, work_budget, decode),
            Err::<RecoveredBatch, FecError>(error),
        ),
    ensures
        error == FecError::WorkBudget || error == FecError::MemoryCapacity || error == FecError::ContradictoryRepair,
{
    let state = old(receiver)@;
    let bytes = storage::contents(source);
    let work = decoder::clone_total(state.rows, state.rows.len() as int);
    lemma_substituted_size(state.rows, state.rows.len() as int, symbol_id, bytes, work, work_budget as int);
    let outcome = decoder::source_outcome(state, symbol_id, bytes, work, work_budget as int);
    if let Ok(found) = outcome {
        bounds::lemma_item_errors(found);
    }
}

} // verus!
