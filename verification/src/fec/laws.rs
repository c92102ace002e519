//! What holds of the decoder as a whole.
use crate::fec::decoder;
use crate::fec::decoder::{DecodedSource, DecoderModel, KnownModel, RecoveredBatch};
use crate::fec::matrix;
use crate::fec::matrix::{FecError, RowModel};
use crate::fec::solutions;
use crate::fec::symbol;
use crate::gf256;
use crate::recovery::RecoveryMemoryBudget;
use vstd::prelude::*;

verus! {

/// Whether everything that the decoder holds is true of these symbols: what it knows
/// are their bytes, and its equations hold for them.
pub open spec fn agrees(state: DecoderModel, symbols: spec_fn(u32) -> Seq<u8>) -> bool {
    &&& forall|i: int|
        0 <= i < state.known.len() ==> symbols((#[trigger] state.known[i]).symbol_id) == state.known[i].bytes
    &&& solutions::solves(state.rows, symbols)
}

/// The symbols of a span.
pub open spec fn span_symbols(symbols: spec_fn(u32) -> Seq<u8>, first: u32, span: int) -> Seq<Seq<u8>> {
    Seq::new(span as nat, |i: int| symbols(symbol::symbol_at(first, i)))
}

/// Whether `coded` is the repair symbol of a span of these symbols; zeros may follow it.
pub open spec fn genuine(
    symbols: spec_fn(u32) -> Seq<u8>,
    first: u32,
    span: int,
    repair_id: u32,
    seed: u32,
    coded: Seq<u8>,
) -> bool {
    forall|at: int| #[trigger]
        matrix::byte_at(coded, at) == (if at < 0 {
            0
        } else {
            symbol::repair_byte(span_symbols(symbols, first, span), first, span, repair_id, seed, at)
        })
}

/// The repair symbol that the encoder makes of the symbols of a span is genuine.
pub proof fn law_encoded_repair_is_genuine(
    symbols: spec_fn(u32) -> Seq<u8>,
    first: u32,
    span: int,
    repair_id: u32,
    seed: u32,
)
    requires
        0 <= span,
    ensures
        genuine(
            symbols,
            first,
            span,
            repair_id,
            seed,
            symbol::repair_of(span_symbols(symbols, first, span), first, repair_id, seed),
        ),
{
    let list = span_symbols(symbols, first, span);
    let coded = symbol::repair_of(list, first, repair_id, seed);
    assert forall|at: int| #[trigger] matrix::byte_at(coded, at) == (if at < 0 {
        0
    } else {
        symbol::repair_byte(list, first, span, repair_id, seed, at)
    }) by {
        if at >= coded.len() {
            symbol::lemma_repair_byte_past_end(list, first, span, repair_id, seed, at);
        }
    }
}

proof fn lemma_known_agrees(state: DecoderModel, symbols: spec_fn(u32) -> Seq<u8>, id: u32)
    requires
        agrees(state, symbols),
    ensures
        decoder::known_bytes(state.known, id) matches Some(bytes) ==> symbols(id) == bytes,
{
    decoder::lemma_find_known(state.known, id, state.known.len() as int);
}

proof fn lemma_regroup_known(data: u8, share: u8, coded: u8, sum: u8)
    by (bit_vector)
    ensures
        ((data ^ share) ^ coded) ^ (sum ^ share) == (data ^ coded) ^ sum,
{
}

proof fn lemma_regroup_term(data: u8, share: u8, coded: u8, sum: u8)
    by (bit_vector)
    ensures
        (data ^ coded) ^ (sum ^ share) == ((data ^ coded) ^ sum) ^ share,
        (data ^ data) ^ 0 == 0,
        (data ^ coded) ^ coded == data,
{
}

/// The equation in the making accounts for every symbol of the span so far.
proof fn lemma_gathered_accounts(
    state: DecoderModel,
    symbols: spec_fn(u32) -> Seq<u8>,
    first: u32,
    count: int,
    span: int,
    repair_id: u32,
    seed: u32,
    coded: Seq<u8>,
    work: int,
    budget: int,
    at: int,
)
    requires
        agrees(state, symbols),
        0 <= count <= span,
        at >= 0,
    ensures
        decoder::gathered(state.known, first, count, repair_id, seed, coded, work, budget) matches Ok(equation)
            ==> solutions::combination(equation.coefficients, symbols, at) == (matrix::byte_at(equation.data, at)
            ^ matrix::byte_at(coded, at)) ^ symbol::repair_byte(
            span_symbols(symbols, first, span),
            first,
            count,
            repair_id,
            seed,
            at,
        ),
    decreases count,
{
    let list = span_symbols(symbols, first, span);
    let byte = matrix::byte_at(coded, at);
    if count == 0 {
        lemma_regroup_term(byte, 0, byte, 0);
    } else {
        lemma_gathered_accounts(
            state,
            symbols,
            first,
            count - 1,
            span,
            repair_id,
            seed,
            coded,
            work,
            budget,
            at,
        );
        if let Ok(prior) = decoder::gathered(
            state.known,
            first,
            count - 1,
            repair_id,
            seed,
            coded,
            work,
            budget,
        ) {
            let id = symbol::symbol_at(first, count - 1);
            let value = symbol::coefficient_value(seed, repair_id, id);
            let own = symbols(id);
            assert(list[count - 1] == own);
            let share = gf256::product(matrix::byte_at(own, at), value);
            let sum = symbol::repair_byte(list, first, count - 1, repair_id, seed, at);
            let data = matrix::byte_at(prior.data, at);
            lemma_known_agrees(state, symbols, id);
            decoder::lemma_gathered_canonical(
                state.known,
                first,
                count - 1,
                repair_id,
                seed,
                coded,
                work,
                budget,
            );
            match decoder::known_bytes(state.known, id) {
                Some(bytes) => {
                    gf256::lemma_product_units(value, 0);
                    gf256::lemma_xor(data, 0, 0);
                    assert(matrix::byte_at(matrix::xored(prior.data, bytes, value), at) == data ^ share
                        || bytes.len() > prior.data.len());
                    lemma_regroup_known(data, share, byte, sum);
                },
                None => {
                    solutions::lemma_combination_add_term(prior.coefficients, id, value, symbols, at);
                    lemma_regroup_term(data, share, byte, sum);
                },
            }
        }
    }
}

/// The equation of a genuine repair symbol holds.
proof fn lemma_repair_equation_holds(
    state: DecoderModel,
    symbols: spec_fn(u32) -> Seq<u8>,
    repair: decoder::Repair,
    work: int,
    budget: int,
)
    requires
        agrees(state, symbols),
        genuine(symbols, repair.first, repair.span as int, repair.repair_id, repair.seed, repair.coded),
    ensures
        decoder::gathered(
            state.known,
            repair.first,
            repair.span as int,
            repair.repair_id,
            repair.seed,
            repair.coded,
            work,
            budget,
        ) matches Ok(equation) ==> solutions::holds(
            RowModel { coefficients: equation.coefficients, data: equation.data },
            symbols,
        ),
{
    if let Ok(equation) = decoder::gathered(
        state.known,
        repair.first,
        repair.span as int,
        repair.repair_id,
        repair.seed,
        repair.coded,
        work,
        budget,
    ) {
        let row = RowModel { coefficients: equation.coefficients, data: equation.data };
        assert forall|at: int| #[trigger] solutions::holds_at(row, symbols, at) by {
            if at < 0 {
                lemma_combination_before_start(row.coefficients, symbols, at);
            } else {
                lemma_gathered_accounts(
                    state,
                    symbols,
                    repair.first,
                    repair.span as int,
                    repair.span as int,
                    repair.repair_id,
                    repair.seed,
                    repair.coded,
                    work,
                    budget,
                    at,
                );
                let byte = matrix::byte_at(repair.coded, at);
                lemma_regroup_term(matrix::byte_at(row.data, at), 0, byte, byte);
            }
        }
    }
}

proof fn lemma_combination_before_start(
    coefficients: Seq<(u32, u8)>,
    symbols: spec_fn(u32) -> Seq<u8>,
    at: int,
)
    requires
        at < 0,
    ensures
        solutions::combination(coefficients, symbols, at) == 0,
    decreases coefficients.len(),
{
    if coefficients.len() > 0 {
        lemma_combination_before_start(coefficients.drop_last(), symbols, at);
        gf256::lemma_product_units(coefficients.last().1, 0);
        gf256::lemma_xor(0, 0, 0);
    }
}

proof fn lemma_unsolved_solves(rows: Seq<RowModel>, symbols: spec_fn(u32) -> Seq<u8>, end: int)
    requires
        solutions::solves(rows, symbols),
        0 <= end <= rows.len(),
    ensures
        solutions::solves(decoder::unsolved(rows, end), symbols),
    decreases end,
{
    if end > 0 {
        lemma_unsolved_solves(rows, symbols, end - 1);
        assert(solutions::holds(rows[end - 1], symbols));
    }
}

/// Every recovered symbol that was cut to its source symbol is the start of the true one.
pub open spec fn starts_match(items: Seq<(u32, Seq<u8>)>, symbols: spec_fn(u32) -> Seq<u8>) -> bool {
    forall|i: int, at: int|
        0 <= i < items.len() && 0 <= at < items[i].1.len() ==> #[trigger] items[i].1[at] == matrix::byte_at(
            symbols(items[i].0),
            at,
        )
}

proof fn lemma_items_match(
    found: Seq<(u32, Seq<u8>)>,
    decoded: Seq<DecodedSource>,
    end: int,
    symbols: spec_fn(u32) -> Seq<u8>,
)
    requires
        0 <= end <= found.len(),
        starts_match(found, symbols),
    ensures
        decoder::canonical_items(found, decoded, end) matches Ok(items) ==> starts_match(items, symbols),
    decreases end,
{
    if end > 0 {
        lemma_items_match(found, decoded, end - 1, symbols);
        if let Ok(prior) = decoder::canonical_items(found, decoded, end - 1) {
            if let Ok(item) = decoder::canonical_item(found[end - 1], decoder::decoded_at(decoded, end - 1)) {
                let items = prior.push(item);
                assert forall|i: int, at: int| 0 <= i < items.len() && 0 <= at < items[i].1.len() implies
                    #[trigger] items[i].1[at] == matrix::byte_at(symbols(items[i].0), at) by {
                    if i < prior.len() {
                        assert(prior[i].1[at] == items[i].1[at]);
                    } else {
                        assert(found[end - 1].1[at] == items[i].1[at]);
                    }
                }
            }
        }
    }
}

proof fn lemma_elimination_is_sound(rows: Seq<RowModel>, symbols: spec_fn(u32) -> Seq<u8>, budget: int)
    requires
        matrix::all_canonical(rows),
        solutions::solves(rows, symbols),
    ensures
        matrix::reduction(rows, budget) != Err::<Seq<(u32, Seq<u8>)>, FecError>(FecError::ContradictoryRepair),
        matrix::reduction(rows, budget) matches Ok(found) ==> starts_match(found, symbols),
        solutions::solves(
            decoder::unsolved(matrix::eliminated(rows, 0), matrix::eliminated(rows, 0).len() as int),
            symbols,
        ),
{
    let after = matrix::eliminated(rows, 0);
    solutions::lemma_elimination_keeps_solutions(rows, 0, symbols);
    lemma_unsolved_solves(after, symbols, after.len() as int);
    if matrix::contradictory(after) {
        solutions::lemma_contradiction_has_no_solution(rows, symbols);
    }
    if let Ok(found) = matrix::reduction(rows, budget) {
        assert forall|i: int, at: int| 0 <= i < found.len() && 0 <= at < found[i].1.len() implies
            #[trigger] found[i].1[at] == matrix::byte_at(symbols(found[i].0), at) by {
            solutions::lemma_recovered_symbols_are_forced(rows, symbols, i, at);
        }
    }
}

/// A repair symbol that was made of the true symbols is never found contradictory, and
/// the decoder stays true: after it has been taken over, the equations still hold, what
/// is known is unchanged, and every source that it gives back is the start of the true
/// symbol.
pub proof fn law_genuine_repair_recovers_true_sources(
    state: DecoderModel,
    symbols: spec_fn(u32) -> Seq<u8>,
    repair: decoder::Repair,
    work: int,
    budget: int,
    decoded: Seq<DecodedSource>,
    row_bytes: int,
)
    requires
        state.valid(),
        agrees(state, symbols),
        genuine(symbols, repair.first, repair.span as int, repair.repair_id, repair.seed, repair.coded),
    ensures
        ({
            let outcome = decoder::repair_outcome(
                state,
                repair.first,
                repair.span,
                repair.repair_id,
                repair.seed,
                repair.coded,
                work,
                budget,
            );
            let rows = decoder::repaired_rows(
                state,
                repair.first,
                repair.span,
                repair.repair_id,
                repair.seed,
                repair.coded,
                work,
                budget,
            );
            &&& outcome != Err::<Option<Seq<(u32, Seq<u8>)>>, FecError>(FecError::ContradictoryRepair)
            &&& outcome matches Ok(Some(found)) ==> {
                &&& agrees(decoder::completed(state, rows, row_bytes, None), symbols)
                &&& decoder::canonical_items(found, decoded, found.len() as int) matches Ok(items) ==> starts_match(
                    items,
                    symbols,
                )
            }
        }),
{
    lemma_repair_equation_holds(state, symbols, repair, work, budget);
    lemma_gathered_errors(
        state.known,
        repair.first,
        repair.span as int,
        repair.repair_id,
        repair.seed,
        repair.coded,
        work,
        budget,
    );
    decoder::lemma_gathered_canonical(
        state.known,
        repair.first,
        repair.span as int,
        repair.repair_id,
        repair.seed,
        repair.coded,
        work,
        budget,
    );
    if let Ok(equation) = decoder::gathered(
        state.known,
        repair.first,
        repair.span as int,
        repair.repair_id,
        repair.seed,
        repair.coded,
        work,
        budget,
    ) {
        let row = RowModel { coefficients: equation.coefficients, data: equation.data };
        let all = state.rows.push(row);
        let left = decoder::budget_left(budget, equation.work);
        assert(matrix::all_canonical(all));
        assert forall|i: int| 0 <= i < all.len() implies solutions::holds(#[trigger] all[i], symbols) by {
            if i < state.rows.len() {
                assert(solutions::holds(state.rows[i], symbols));
            }
        }
        lemma_elimination_is_sound(all, symbols, left);
        if row.coefficients.len() == 0 && matrix::row_contradicts(row) {
            let k = choose|k: int| 0 <= k < row.data.len() && #[trigger] row.data[k] != 0;
            assert(solutions::holds_at(row, symbols, k));
        }
        if let Ok(found) = matrix::reduction(all, left) {
            lemma_items_match(found, decoded, found.len() as int, symbols);
        }
    }
}

proof fn lemma_with_symbol_holds(row: RowModel, id: u32, bytes: Seq<u8>, symbols: spec_fn(u32) -> Seq<u8>)
    requires
        matrix::canonical(row.coefficients),
        matrix::mentions(row.coefficients, id),
        bytes.len() <= row.data.len(),
        symbols(id) == bytes,
        solutions::holds(row, symbols),
    ensures
        solutions::holds(decoder::with_symbol(row, id, bytes), symbols),
{
    let after = decoder::with_symbol(row, id, bytes);
    let value = matrix::coefficient_of(row.coefficients, id);
    gf256::lemma_xor(value, value, 0);
    assert(matrix::add_term(row.coefficients, id, value) == after.coefficients);
    assert forall|at: int| #[trigger] solutions::holds_at(after, symbols, at) by {
        assert(solutions::holds_at(row, symbols, at));
        solutions::lemma_combination_add_term(row.coefficients, id, value, symbols, at);
        gf256::lemma_product_units(value, 0);
        gf256::lemma_xor(matrix::byte_at(row.data, at), 0, 0);
    }
}

proof fn lemma_substituted_solves(
    rows: Seq<RowModel>,
    count: int,
    id: u32,
    bytes: Seq<u8>,
    work: int,
    budget: int,
    symbols: spec_fn(u32) -> Seq<u8>,
)
    requires
        matrix::all_canonical(rows),
        0 <= count <= rows.len(),
        symbols(id) == bytes,
        solutions::solves(rows, symbols),
    ensures
        decoder::substituted(rows, count, id, bytes, work, budget) matches Ok((after, _)) ==> solutions::solves(
            after,
            symbols,
        ) && after.len() == rows.len(),
    decreases count,
{
    if count > 0 {
        lemma_substituted_solves(rows, count - 1, id, bytes, work, budget, symbols);
        if let Ok((prior, spent)) = decoder::substituted(rows, count - 1, id, bytes, work, budget) {
            let row = rows[count - 1];
            if matrix::mentions(row.coefficients, id) && bytes.len() <= row.data.len() {
                assert(solutions::holds(rows[count - 1], symbols));
                lemma_with_symbol_holds(row, id, bytes, symbols);
                let after = prior.update(count - 1, decoder::with_symbol(row, id, bytes));
                assert forall|i: int| 0 <= i < after.len() implies solutions::holds(#[trigger] after[i], symbols) by {
                    if i != count - 1 {
                        assert(solutions::holds(prior[i], symbols));
                    }
                }
            }
        }
    }
}

/// A repair gives back every symbol that can be known: one that is missing from what it
/// yields is one that the equations leave open. Other symbols, which differ in it, meet
/// every equation that the decoder holds after the repair.
pub proof fn law_repair_recovers_whatever_is_determined(
    state: DecoderModel,
    symbols: spec_fn(u32) -> Seq<u8>,
    repair: decoder::Repair,
    work: int,
    budget: int,
    id: u32,
)
    requires
        state.valid(),
        agrees(state, symbols),
        genuine(symbols, repair.first, repair.span as int, repair.repair_id, repair.seed, repair.coded),
        decoder::repair_outcome(
            state,
            repair.first,
            repair.span,
            repair.repair_id,
            repair.seed,
            repair.coded,
            work,
            budget,
        ) matches Ok(Some(found)) && forall|i: int| 0 <= i < found.len() ==> (#[trigger] found[i]).0 != id,
    ensures
        ({
            let rows = decoder::repaired_rows(
                state,
                repair.first,
                repair.span,
                repair.repair_id,
                repair.seed,
                repair.coded,
                work,
                budget,
            );
            exists|other: spec_fn(u32) -> Seq<u8>| #[trigger]
                solutions::solves(rows, other) && matrix::byte_at(other(id), 0) != matrix::byte_at(symbols(id), 0)
        }),
{
    lemma_repair_equation_holds(state, symbols, repair, work, budget);
    decoder::lemma_gathered_canonical(
        state.known,
        repair.first,
        repair.span as int,
        repair.repair_id,
        repair.seed,
        repair.coded,
        work,
        budget,
    );
    let equation = decoder::gathered(
        state.known,
        repair.first,
        repair.span as int,
        repair.repair_id,
        repair.seed,
        repair.coded,
        work,
        budget,
    )->Ok_0;
    let all = state.rows.push(RowModel { coefficients: equation.coefficients, data: equation.data });
    assert(matrix::all_canonical(all));
    assert forall|i: int| 0 <= i < all.len() implies solutions::holds(#[trigger] all[i], symbols) by {
        if i < state.rows.len() {
            assert(solutions::holds(state.rows[i], symbols));
        }
    }
    let found = decoder::repair_outcome(
        state,
        repair.first,
        repair.span,
        repair.repair_id,
        repair.seed,
        repair.coded,
        work,
        budget,
    )->Ok_0->0;
    assert(found == matrix::determined(matrix::eliminated(all, 0), all.len() as int));
    assert(solutions::solves(all, symbols));
    solutions::law_recovery_is_complete(all, symbols, id);
    let other = choose|other: spec_fn(u32) -> Seq<u8>| #[trigger]
        solutions::solves(all, other) && matrix::byte_at(other(id), 0) != matrix::byte_at(symbols(id), 0);
    solutions::lemma_elimination_keeps_solutions(all, 0, other);
    let rows = decoder::repaired_rows(
        state,
        repair.first,
        repair.span,
        repair.repair_id,
        repair.seed,
        repair.coded,
        work,
        budget,
    );
    assert(rows == matrix::eliminated(all, 0));
    assert(solutions::solves(rows, other));
}

/// A true source that joins the window keeps the decoder true, and every source that it
/// helps to recover is the start of the true symbol.
pub proof fn law_true_source_recovers_true_sources(
    state: DecoderModel,
    symbols: spec_fn(u32) -> Seq<u8>,
    kept: KnownModel,
    work: int,
    budget: int,
    decoded: Seq<DecodedSource>,
    row_bytes: int,
)
    requires
        state.valid(),
        agrees(state, symbols),
        symbols(kept.symbol_id) == kept.bytes,
    ensures
        ({
            let outcome = decoder::source_outcome(state, kept.symbol_id, kept.bytes, work, budget);
            let rows = decoder::sourced_rows(state, kept.symbol_id, kept.bytes, work, budget);
            &&& outcome != Err::<Seq<(u32, Seq<u8>)>, FecError>(FecError::ContradictoryRepair)
            &&& outcome matches Ok(found) ==> {
                &&& agrees(decoder::completed(state, rows, row_bytes, Some(kept)), symbols)
                &&& decoder::canonical_items(found, decoded, found.len() as int) matches Ok(items) ==> starts_match(
                    items,
                    symbols,
                )
            }
        }),
{
    let rows = state.rows;
    let end = rows.len() as int;
    lemma_substituted_solves(rows, end, kept.symbol_id, kept.bytes, work, budget, symbols);
    decoder::lemma_substituted_canonical(rows, end, kept.symbol_id, kept.bytes, work, budget);
    match decoder::substituted(rows, end, kept.symbol_id, kept.bytes, work, budget) {
        Ok((changed, spent)) => {
            let left = decoder::budget_left(budget, spent);
            lemma_elimination_is_sound(changed, symbols, left);
            if let Ok(found) = matrix::reduction(changed, left) {
                lemma_items_match(found, decoded, found.len() as int, symbols);
            }
        },
        Err(error) => {
            lemma_substituted_errors(rows, end, kept.symbol_id, kept.bytes, work, budget);
        },
    }
    let window = state.known_with(kept);
    let pushed = state.known.push(kept);
    assert forall|i: int| 0 <= i < window.len() implies symbols((#[trigger] window[i]).symbol_id)
        == window[i].bytes by {
        let shift: int = if window.len() == pushed.len() { 0 } else { 1 };
        assert(window[i] == pushed[i + shift]);
        if i + shift < state.known.len() {
            assert(pushed[i + shift] == state.known[i + shift]);
        }
    }
}

proof fn lemma_gathered_errors(
    known: Seq<KnownModel>,
    first: u32,
    count: int,
    repair_id: u32,
    seed: u32,
    coded: Seq<u8>,
    work: int,
    budget: int,
)
    ensures
        decoder::gathered(known, first, count, repair_id, seed, coded, work, budget) matches Err(error) ==> error
            != FecError::ContradictoryRepair,
    decreases count,
{
    if count > 0 {
        lemma_gathered_errors(known, first, count - 1, repair_id, seed, coded, work, budget);
    }
}

proof fn lemma_substituted_errors(
    rows: Seq<RowModel>,
    count: int,
    id: u32,
    bytes: Seq<u8>,
    work: int,
    budget: int,
)
    ensures
        decoder::substituted(rows, count, id, bytes, work, budget) matches Err(error) ==> error
            != FecError::ContradictoryRepair,
    decreases count,
{
    if count > 0 {
        lemma_substituted_errors(rows, count - 1, id, bytes, work, budget);
    }
}

/// A source that joins the window gives back every symbol that can be known then, too: one
/// that is missing from what it yields is one that the equations leave open.
pub proof fn law_source_recovers_whatever_is_determined(
    state: DecoderModel,
    symbols: spec_fn(u32) -> Seq<u8>,
    kept: KnownModel,
    work: int,
    budget: int,
    id: u32,
)
    requires
        state.valid(),
        agrees(state, symbols),
        symbols(kept.symbol_id) == kept.bytes,
        decoder::source_outcome(state, kept.symbol_id, kept.bytes, work, budget) matches Ok(found) && forall|i: int|
            0 <= i < found.len() ==> (#[trigger] found[i]).0 != id,
    ensures
        ({
            let rows = decoder::sourced_rows(state, kept.symbol_id, kept.bytes, work, budget);
            exists|other: spec_fn(u32) -> Seq<u8>| #[trigger]
                solutions::solves(rows, other) && matrix::byte_at(other(id), 0) != matrix::byte_at(symbols(id), 0)
        }),
{
    let end = state.rows.len() as int;
    lemma_substituted_solves(state.rows, end, kept.symbol_id, kept.bytes, work, budget, symbols);
    decoder::lemma_substituted_canonical(state.rows, end, kept.symbol_id, kept.bytes, work, budget);
    let changed = decoder::substituted(state.rows, end, kept.symbol_id, kept.bytes, work, budget)->Ok_0.0;
    let found = decoder::source_outcome(state, kept.symbol_id, kept.bytes, work, budget)->Ok_0;
    assert(found == matrix::determined(matrix::eliminated(changed, 0), changed.len() as int));
    solutions::law_recovery_is_complete(changed, symbols, id);
    let other = choose|other: spec_fn(u32) -> Seq<u8>| #[trigger]
        solutions::solves(changed, other) && matrix::byte_at(other(id), 0) != matrix::byte_at(symbols(id), 0);
    solutions::lemma_elimination_keeps_solutions(changed, 0, other);
    let rows = decoder::sourced_rows(state, kept.symbol_id, kept.bytes, work, budget);
    assert(rows == matrix::eliminated(changed, 0));
    assert(solutions::solves(rows, other));
}

/// Memory is conserved: what a completed operation adds to the bytes in use is what the
/// decoder holds more than before, together with what the batch holds.
///
/// A decoder that keeps no sources at all is left out: a source that it is given leaves
/// at once and its memory stays counted.
pub proof fn law_memory_is_conserved(
    before: DecoderModel,
    after: DecoderModel,
    memory: RecoveryMemoryBudget,
    memory_after: RecoveryMemoryBudget,
    scratch: int,
    rows: Seq<RowModel>,
    symbols: Seq<(u32, Seq<u8>)>,
    decoded: Seq<DecodedSource>,
    row_capacity: int,
    coefficient_capacity: int,
    source: Option<KnownModel>,
    batch: RecoveredBatch,
)
    requires
        before.valid(),
        before.max_symbols > 0,
        memory.used >= before.held(),
        scratch >= 0,
        memory.used + scratch <= memory.limit,
        source is Some ==> source->0.retained >= 0,
        row_capacity >= 0,
        coefficient_capacity >= 0,
        decoder::completes(
            before,
            after,
            memory,
            memory_after,
            scratch,
            rows,
            symbols,
            decoded,
            row_capacity,
            coefficient_capacity,
            source,
            Ok(batch),
        ),
    ensures
        memory_after.used - memory.used == (after.held() - before.held()) + batch.charge.bytes,
        memory_after.used >= after.held() + batch.charge.bytes,
{
    let outcome = decoder::completion(
        before,
        decoder::charged(memory, scratch),
        scratch,
        rows,
        symbols,
        decoded,
        row_capacity,
        coefficient_capacity,
        source,
    );
    let done = outcome->Ok_0;
    decoder::lemma_valid_bytes(before);
    if let Some(kept) = source {
        decoder::lemma_known_with(before, kept);
    }
    let cost = decoder::completion_cost(before, done, source);
    assert(memory.used + cost == after.held() + (memory.used - before.held()) + batch.retained_bytes);
    decoder::lemma_item_bytes_grow(done.items, 0, done.items.len() as int);
    assert(after.held() >= 0) by {
        assert(done.row_bytes >= 0) by {
            lemma_row_storage_not_negative(
                row_capacity,
                decoder::unsolved(rows, rows.len() as int).len() as int,
                coefficient_capacity,
                before.max_symbol_bytes,
            );
        }
    }
    assert(cost <= done.required);
    assert(memory.used + cost <= u64::MAX);
}

proof fn lemma_row_storage_not_negative(
    row_capacity: int,
    kept: int,
    coefficient_capacity: int,
    max_symbol_bytes: int,
)
    requires
        row_capacity >= 0,
        kept >= 0,
        coefficient_capacity >= 0,
        max_symbol_bytes >= 0,
    ensures
        decoder::row_storage(row_capacity, kept, coefficient_capacity, max_symbol_bytes) >= 0,
{
    let row = vstd::layout::size_of::<matrix::Row>() as int;
    let term = vstd::layout::size_of::<(u32, u8)>() as int;
    assert(row_capacity * row >= 0) by (nonlinear_arith)
        requires row_capacity >= 0, row >= 0;
    assert(coefficient_capacity * term >= 0) by (nonlinear_arith)
        requires coefficient_capacity >= 0, term >= 0;
    let each = max_symbol_bytes + coefficient_capacity * term;
    assert(kept * each >= 0) by (nonlinear_arith)
        requires kept >= 0, each >= 0;
}

/// The bytes that an operation hands out with its result.
pub open spec fn handed_out(result: Result<RecoveredBatch, FecError>) -> int {
    match result {
        Ok(batch) => batch.charge.bytes as int,
        Err(_) => 0,
    }
}

proof fn lemma_coefficient_total_not_negative(rows: Seq<RowModel>, end: int)
    ensures
        decoder::coefficient_total(rows, end) >= 0,
    decreases end,
{
    if end > 0 {
        lemma_coefficient_total_not_negative(rows, end - 1);
    }
}

proof fn lemma_scratch_not_negative(state: DecoderModel, additional_rows: int, additional_coefficients: int, bytes: int)
    requires
        state.valid(),
        additional_rows >= 0,
        additional_coefficients >= 0,
        bytes >= 0,
    ensures
        decoder::scratch_need(state.rows, state.max_symbol_bytes, additional_rows, additional_coefficients, bytes) >= 0,
{
    lemma_coefficient_total_not_negative(state.rows, state.rows.len() as int);
    let count = state.rows.len() + additional_rows;
    let coefficients = additional_coefficients + decoder::coefficient_total(state.rows, state.rows.len() as int);
    let term = vstd::layout::size_of::<(u32, u8)>() as int;
    assert(coefficients * term >= 0) by (nonlinear_arith)
        requires coefficients >= 0, term >= 0;
    let row = decoder::row_need(state.rows, state.max_symbol_bytes, additional_coefficients);
    let recovered = decoder::recovered_need(state.max_symbol_bytes);
    assert(count * row >= 0) by (nonlinear_arith)
        requires count >= 0, row >= 0;
    assert(count * recovered >= 0) by (nonlinear_arith)
        requires count >= 0, recovered >= 0;
}

/// A source conserves memory, whatever comes of it: what is in use grows by what the
/// decoder holds more than before and by what the result hands out.
///
/// A decoder that keeps no sources at all is left out, as in [`law_memory_is_conserved`].
pub proof fn law_source_conserves_memory<D: Fn(&[u8]) -> DecodedSource>(
    decode: &D,
    id: u32,
    bytes: Seq<u8>,
    work_budget: int,
    before: DecoderModel,
    after: DecoderModel,
    memory: RecoveryMemoryBudget,
    memory_after: RecoveryMemoryBudget,
    result: Result<RecoveredBatch, FecError>,
)
    requires
        before.valid(),
        before.max_symbols > 0,
        memory.used >= before.held(),
        decoder::sources(decode, id, bytes, work_budget, before, after, memory, memory_after, result),
    ensures
        memory_after.used - memory.used == after.held() - before.held() + handed_out(result),
        after.max_symbols == before.max_symbols,
        after.max_rows == before.max_rows,
{
    decoder::lemma_valid_bytes(before);
    if result is Ok && !decoder::nothing_new(before, after, memory, memory_after, result) {
        if before.rows.len() == 0 {
            let kept = choose|kept: KnownModel| #[trigger]
                decoder::source_stored(id, bytes, before, after, memory, memory_after, kept, result);
            decoder::lemma_known_with(before, kept);
        } else {
            let symbols = decoder::source_outcome(
                before,
                id,
                bytes,
                decoder::clone_total(before.rows, before.rows.len() as int),
                work_budget,
            )->Ok_0;
            let kept = choose|kept: KnownModel| #[trigger]
                decoder::keeps(kept, id, bytes) && decoder::source_completes(
                    decode,
                    id,
                    bytes,
                    work_budget,
                    before,
                    after,
                    memory,
                    memory_after,
                    symbols,
                    kept,
                    result,
                );
            let scratch = decoder::scratch_need(before.rows, before.max_symbol_bytes, 0, 0, bytes.len() as int);
            let rows = decoder::sourced_rows(
                before,
                id,
                bytes,
                decoder::clone_total(before.rows, before.rows.len() as int),
                work_budget,
            );
            let coefficients = decoder::coefficient_total(before.rows, before.rows.len() as int);
            let decoded = choose|decoded: Seq<DecodedSource>| #[trigger]
                decoder::reads(decode, symbols, decoded) && decoder::completes(
                    before,
                    after,
                    memory,
                    memory_after,
                    scratch,
                    rows,
                    symbols,
                    decoded,
                    before.rows.len() as int,
                    coefficients,
                    Some(kept),
                    result,
                );
            lemma_scratch_not_negative(before, 0, 0, bytes.len() as int);
            lemma_coefficient_total_not_negative(before.rows, before.rows.len() as int);
            law_memory_is_conserved(
                before,
                after,
                memory,
                memory_after,
                scratch,
                rows,
                symbols,
                decoded,
                before.rows.len() as int,
                coefficients,
                Some(kept),
                result->Ok_0,
            );
        }
    }
}

/// A repair conserves memory, whatever comes of it: what is in use grows by what the
/// decoder holds more than before and by what the result hands out.
///
/// A decoder that keeps no sources at all is left out, as in [`law_memory_is_conserved`].
pub proof fn law_repair_conserves_memory<D: Fn(&[u8]) -> DecodedSource>(
    decode: &D,
    repair: decoder::Repair,
    work_budget: int,
    before: DecoderModel,
    after: DecoderModel,
    memory: RecoveryMemoryBudget,
    memory_after: RecoveryMemoryBudget,
    result: Result<RecoveredBatch, FecError>,
)
    requires
        before.valid(),
        before.max_symbols > 0,
        memory.used >= before.held(),
        decoder::repairs(decode, repair, work_budget, before, after, memory, memory_after, result),
    ensures
        memory_after.used - memory.used == after.held() - before.held() + handed_out(result),
        after.max_symbols == before.max_symbols,
        after.max_rows == before.max_rows,
{
    decoder::lemma_valid_bytes(before);
    if result is Ok && !decoder::nothing_new(before, after, memory, memory_after, result) {
        let work = decoder::repair_work(before, repair.span, repair.coded.len() as int);
        let symbols = decoder::repair_outcome(
            before,
            repair.first,
            repair.span,
            repair.repair_id,
            repair.seed,
            repair.coded,
            work,
            work_budget,
        )->Ok_0->0;
        let decoded = choose|decoded: Seq<DecodedSource>| #[trigger]
            decoder::reads(decode, symbols, decoded) && decoder::repair_completes(
                repair,
                work_budget,
                before,
                after,
                memory,
                memory_after,
                symbols,
                decoded,
                result,
            );
        let coefficients = decoder::coefficient_total(before.rows, before.rows.len() as int);
        lemma_scratch_not_negative(before, 1, repair.span as int, 0);
        lemma_coefficient_total_not_negative(before.rows, before.rows.len() as int);
        law_memory_is_conserved(
            before,
            after,
            memory,
            memory_after,
            decoder::scratch_need(before.rows, before.max_symbol_bytes, 1, repair.span as int, 0),
            decoder::repaired_rows(
                before,
                repair.first,
                repair.span,
                repair.repair_id,
                repair.seed,
                repair.coded,
                work,
                work_budget,
            ),
            symbols,
            decoded,
            (before.rows.len() + 1) as int,
            repair.span + coefficients,
            None,
            result->Ok_0,
        );
    }
}

}
