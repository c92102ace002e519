//! What elimination means: it keeps the solutions of the equations, and what it
//! determines is what every solution holds.
use crate::fec::matrix;
use crate::fec::matrix::RowModel;
use crate::gf256;
use vstd::prelude::*;

verus! {

/// The sum at byte `at` of the symbols in a coefficient list, each times its coefficient.
pub open spec fn combination(coefficients: Seq<(u32, u8)>, symbols: spec_fn(u32) -> Seq<u8>, at: int) -> u8
    decreases coefficients.len(),
{
    if coefficients.len() == 0 {
        0
    } else {
        let term = coefficients.last();
        combination(coefficients.drop_last(), symbols, at) ^ gf256::product(
            matrix::byte_at(symbols(term.0), at),
            term.1,
        )
    }
}

/// Whether the equation holds for these symbols at byte `at`.
pub open spec fn holds_at(row: RowModel, symbols: spec_fn(u32) -> Seq<u8>, at: int) -> bool {
    combination(row.coefficients, symbols, at) == matrix::byte_at(row.data, at)
}

/// Whether the equation holds for these symbols.
pub open spec fn holds(row: RowModel, symbols: spec_fn(u32) -> Seq<u8>) -> bool {
    forall|at: int| #[trigger] holds_at(row, symbols, at)
}

/// Whether these symbols solve every equation.
pub open spec fn solves(rows: Seq<RowModel>, symbols: spec_fn(u32) -> Seq<u8>) -> bool {
    forall|i: int| 0 <= i < rows.len() ==> holds(#[trigger] rows[i], symbols)
}

pub(crate) proof fn lemma_combination_splits(
    coefficients: Seq<(u32, u8)>,
    symbols: spec_fn(u32) -> Seq<u8>,
    at: int,
    middle: int,
)
    requires
        0 <= middle <= coefficients.len(),
    ensures
        combination(coefficients, symbols, at) == combination(coefficients.take(middle), symbols, at)
            ^ combination(coefficients.skip(middle), symbols, at),
    decreases coefficients.len(),
{
    let whole = combination(coefficients, symbols, at);
    gf256::lemma_xor(whole, 0, 0);
    if middle == coefficients.len() {
        assert(coefficients.take(middle) =~= coefficients);
        assert(coefficients.skip(middle).len() == 0);
    } else {
        let shorter = coefficients.drop_last();
        lemma_combination_splits(shorter, symbols, at, middle);
        assert(shorter.take(middle) =~= coefficients.take(middle));
        assert(coefficients.skip(middle).drop_last() =~= shorter.skip(middle));
        assert(coefficients.skip(middle).last() == coefficients.last());
        gf256::lemma_xor(
            combination(shorter.take(middle), symbols, at),
            combination(shorter.skip(middle), symbols, at),
            gf256::product(matrix::byte_at(symbols(coefficients.last().0), at), coefficients.last().1),
        );
    }
}

pub(crate) proof fn lemma_combination_single(term: (u32, u8), symbols: spec_fn(u32) -> Seq<u8>, at: int)
    ensures
        combination(seq![term], symbols, at) == gf256::product(matrix::byte_at(symbols(term.0), at), term.1),
{
    reveal_with_fuel(combination, 2);
    assert(seq![term].drop_last().len() == 0);
    gf256::lemma_xor(gf256::product(matrix::byte_at(symbols(term.0), at), term.1), 0, 0);
}

/// Adding a term adds the symbol's share to the sum.
pub(crate) proof fn lemma_combination_add_term(
    coefficients: Seq<(u32, u8)>,
    id: u32,
    value: u8,
    symbols: spec_fn(u32) -> Seq<u8>,
    at: int,
)
    requires
        matrix::canonical(coefficients),
    ensures
        combination(matrix::add_term(coefficients, id, value), symbols, at) == combination(
            coefficients,
            symbols,
            at,
        ) ^ gf256::product(matrix::byte_at(symbols(id), at), value),
{
    matrix::lemma_rank(coefficients, id);
    let place = matrix::rank(coefficients, id);
    let after = matrix::add_term(coefficients, id, value);
    let byte = matrix::byte_at(symbols(id), at);
    let share = gf256::product(byte, value);
    let front = combination(coefficients.take(place), symbols, at);
    if matrix::mentions(coefficients, id) {
        let rest = coefficients.skip(place + 1);
        let back = combination(rest, symbols, at);
        let own = coefficients[place].1;
        let tail = coefficients.skip(place);
        lemma_combination_splits(coefficients, symbols, at, place);
        lemma_combination_splits(tail, symbols, at, 1);
        assert(tail.take(1) =~= seq![coefficients[place]]);
        assert(tail.skip(1) =~= rest);
        lemma_combination_single(coefficients[place], symbols, at);
        let held = gf256::product(byte, own);
        gf256::lemma_product_distributes(own, value, byte);
        lemma_regroup(front, held, back, share);
        if own ^ value == 0 {
            lemma_combination_splits(after, symbols, at, place);
            assert(after.take(place) =~= coefficients.take(place));
            assert(after.skip(place) =~= rest);
            gf256::lemma_product_units(byte, 0);
            gf256::lemma_xor(front, 0, back);
            gf256::lemma_xor(back, 0, 0);
        } else {
            let changed = after.skip(place);
            lemma_combination_splits(after, symbols, at, place);
            lemma_combination_splits(changed, symbols, at, 1);
            assert(after.take(place) =~= coefficients.take(place));
            assert(changed.take(1) =~= seq![(id, own ^ value)]);
            assert(changed.skip(1) =~= rest);
            lemma_combination_single((id, own ^ value), symbols, at);
        }
    } else {
        let rest = coefficients.skip(place);
        let back = combination(rest, symbols, at);
        let changed = after.skip(place);
        lemma_combination_splits(coefficients, symbols, at, place);
        lemma_combination_splits(after, symbols, at, place);
        lemma_combination_splits(changed, symbols, at, 1);
        assert(after.take(place) =~= coefficients.take(place));
        assert(changed.take(1) =~= seq![(id, value)]);
        assert(changed.skip(1) =~= rest);
        lemma_combination_single((id, value), symbols, at);
        lemma_regroup(front, 0, back, share);
        gf256::lemma_xor(share, 0, 0);
        gf256::lemma_xor(back, 0, 0);
    }
}

proof fn lemma_regroup(front: u8, held: u8, back: u8, share: u8)
    by (bit_vector)
    ensures
        front ^ ((held ^ share) ^ back) == (front ^ (held ^ back)) ^ share,
{
}

pub(crate) proof fn lemma_combination_merged(
    target: Seq<(u32, u8)>,
    source: Seq<(u32, u8)>,
    factor: u8,
    count: nat,
    symbols: spec_fn(u32) -> Seq<u8>,
    at: int,
)
    requires
        matrix::canonical(target),
        matrix::canonical(source),
        factor != 0,
        count <= source.len(),
    ensures
        combination(matrix::merged(target, source, factor, count), symbols, at) == combination(target, symbols, at)
            ^ gf256::product(combination(source.take(count as int), symbols, at), factor),
    decreases count,
{
    let base = combination(target, symbols, at);
    gf256::lemma_xor(base, 0, 0);
    gf256::lemma_product_units(factor, 0);
    if count == 0 {
        assert(source.take(0).len() == 0);
    } else {
        let prior = (count - 1) as nat;
        let term = source[count - 1];
        let byte = matrix::byte_at(symbols(term.0), at);
        lemma_combination_merged(target, source, factor, prior, symbols, at);
        matrix::lemma_merged(target, source, factor, prior, 0);
        lemma_combination_add_term(
            matrix::merged(target, source, factor, prior),
            term.0,
            gf256::product(term.1, factor),
            symbols,
            at,
        );
        let longer = source.take(count as int);
        assert(longer.drop_last() =~= source.take(prior as int));
        assert(longer.last() == term);
        let part = combination(source.take(prior as int), symbols, at);
        gf256::lemma_product_distributes(part, gf256::product(byte, term.1), factor);
        gf256::lemma_product_associates(byte, term.1, factor);
        gf256::lemma_xor(
            base,
            gf256::product(part, factor),
            gf256::product(byte, gf256::product(term.1, factor)),
        );
    }
}

pub(crate) proof fn lemma_combination_scaled(row: RowModel, factor: u8, symbols: spec_fn(u32) -> Seq<u8>, at: int)
    ensures
        combination(matrix::scaled(row, factor).coefficients, symbols, at) == gf256::product(
            combination(row.coefficients, symbols, at),
            factor,
        ),
    decreases row.coefficients.len(),
{
    gf256::lemma_product_units(factor, 0);
    if row.coefficients.len() > 0 {
        let shorter = RowModel { coefficients: row.coefficients.drop_last(), data: row.data };
        lemma_combination_scaled(shorter, factor, symbols, at);
        assert(matrix::scaled(row, factor).coefficients.drop_last() =~= matrix::scaled(shorter, factor).coefficients);
        let term = row.coefficients.last();
        let byte = matrix::byte_at(symbols(term.0), at);
        gf256::lemma_product_distributes(
            combination(shorter.coefficients, symbols, at),
            gf256::product(byte, term.1),
            factor,
        );
        gf256::lemma_product_associates(byte, term.1, factor);
    }
}

/// Multiplying both sides by a non-zero value keeps the solutions.
pub proof fn lemma_scaled_holds(row: RowModel, factor: u8, symbols: spec_fn(u32) -> Seq<u8>)
    requires
        factor != 0,
    ensures
        holds(matrix::scaled(row, factor), symbols) <==> holds(row, symbols),
{
    let after = matrix::scaled(row, factor);
    assert forall|at: int| #![trigger holds_at(after, symbols, at)] #![trigger holds_at(row, symbols, at)]
        holds_at(after, symbols, at) <==> holds_at(row, symbols, at) by {
        lemma_combination_scaled(row, factor, symbols, at);
        let left = combination(row.coefficients, symbols, at);
        let right = matrix::byte_at(row.data, at);
        gf256::lemma_product_units(factor, 0);
        assert(matrix::byte_at(after.data, at) == gf256::product(right, factor));
        lemma_product_cancels(left, right, factor);
    }
    if holds(row, symbols) {
        assert forall|at: int| #[trigger] holds_at(after, symbols, at) by {
            assert(holds_at(row, symbols, at));
        }
    }
    if holds(after, symbols) {
        assert forall|at: int| #[trigger] holds_at(row, symbols, at) by {
            assert(holds_at(after, symbols, at));
        }
    }
}

proof fn lemma_product_cancels(left: u8, right: u8, factor: u8)
    requires
        factor != 0,
    ensures
        gf256::product(left, factor) == gf256::product(right, factor) <==> left == right,
{
    gf256::lemma_product_distributes(left, right, factor);
    gf256::lemma_product_units(left ^ right, factor);
    gf256::lemma_xor(left, right, 0);
    gf256::lemma_xor(gf256::product(left, factor), gf256::product(right, factor), 0);
}

/// Where `source` holds, subtracting a multiple of it keeps the solutions.
pub proof fn lemma_subtracted_holds(
    target: RowModel,
    source: RowModel,
    factor: u8,
    symbols: spec_fn(u32) -> Seq<u8>,
)
    requires
        matrix::canonical(target.coefficients),
        matrix::canonical(source.coefficients),
        factor != 0,
        holds(source, symbols),
    ensures
        holds(matrix::subtracted(target, source, factor), symbols) <==> holds(target, symbols),
{
    let after = matrix::subtracted(target, source, factor);
    let terms = source.coefficients.len();
    assert(source.coefficients.take(terms as int) =~= source.coefficients);
    assert forall|at: int| #![trigger holds_at(after, symbols, at)] #![trigger holds_at(target, symbols, at)]
        holds_at(after, symbols, at) <==> holds_at(target, symbols, at) by {
        lemma_combination_merged(target.coefficients, source.coefficients, factor, terms, symbols, at);
        assert(holds_at(source, symbols, at));
        let left = combination(target.coefficients, symbols, at);
        let right = matrix::byte_at(target.data, at);
        let share = gf256::product(matrix::byte_at(source.data, at), factor);
        gf256::lemma_product_units(factor, 0);
        gf256::lemma_xor(right, 0, 0);
        assert(matrix::byte_at(after.data, at) == right ^ share);
        gf256::lemma_xor(left, share, 0);
        gf256::lemma_xor(right, share, 0);
    }
    if holds(target, symbols) {
        assert forall|at: int| #[trigger] holds_at(after, symbols, at) by {
            assert(holds_at(target, symbols, at));
        }
    }
    if holds(after, symbols) {
        assert forall|at: int| #[trigger] holds_at(target, symbols, at) by {
            assert(holds_at(after, symbols, at));
        }
    }
}

proof fn lemma_step_solves(rows: Seq<RowModel>, pivot: int, best: int, symbols: spec_fn(u32) -> Seq<u8>)
    requires
        matrix::all_canonical(rows),
        0 <= pivot <= best < rows.len(),
        rows[best].coefficients.len() > 0,
    ensures
        solves(matrix::pivot_step(rows, pivot, best), symbols) <==> solves(rows, symbols),
{
    let moved = matrix::swapped(rows, pivot, best);
    let after = matrix::pivot_step(rows, pivot, best);
    let lead = moved[pivot];
    let source = matrix::normalised(lead);
    let id = source.coefficients[0].0;
    matrix::lemma_normalised(lead);
    lemma_scaled_holds(lead, gf256::reciprocal(lead.coefficients[0].1), symbols);
    assert forall|i: int| 0 <= i < rows.len() && i != pivot && holds(source, symbols) implies (holds(
        #[trigger] after[i],
        symbols,
    ) <==> holds(moved[i], symbols)) by {
        if matrix::mentions(moved[i].coefficients, id) {
            matrix::lemma_mentions_iff(moved[i].coefficients, id);
            lemma_subtracted_holds(moved[i], source, matrix::coefficient_of(moved[i].coefficients, id), symbols);
        }
    }
    if solves(rows, symbols) {
        assert(holds(rows[best], symbols) && holds(rows[pivot], symbols));
        assert forall|i: int| 0 <= i < after.len() implies holds(#[trigger] after[i], symbols) by {
            assert(holds(rows[i], symbols));
        }
    }
    if solves(after, symbols) {
        assert(holds(after[pivot], symbols));
        assert forall|i: int| 0 <= i < rows.len() implies holds(#[trigger] rows[i], symbols) by {
            if i == best {
                assert(moved[pivot] == rows[best]);
            } else if i == pivot {
                assert(moved[best] == rows[pivot]);
                assert(holds(after[best], symbols));
            } else {
                assert(moved[i] == rows[i]);
                assert(holds(after[i], symbols));
            }
        }
    }
}

/// Elimination neither loses nor invents a solution.
pub proof fn lemma_elimination_keeps_solutions(
    rows: Seq<RowModel>,
    pivot: int,
    symbols: spec_fn(u32) -> Seq<u8>,
)
    requires
        matrix::all_canonical(rows),
        0 <= pivot,
    ensures
        solves(matrix::eliminated(rows, pivot), symbols) <==> solves(rows, symbols),
        matrix::all_canonical(matrix::eliminated(rows, pivot)),
        matrix::eliminated(rows, pivot).len() == rows.len(),
    decreases rows.len() - pivot,
{
    if pivot < rows.len() {
        matrix::lemma_best_pivot(rows, pivot, rows.len() as int);
        match matrix::best_pivot(rows, pivot, rows.len() as int) {
            None => {},
            Some(best) => {
                matrix::lemma_step_canonical(rows, pivot, best);
                lemma_step_solves(rows, pivot, best, symbols);
                lemma_elimination_keeps_solutions(matrix::pivot_step(rows, pivot, best), pivot + 1, symbols);
            },
        }
    }
}

/// The first `pivots` rows lead with coefficient one, at increasing identifiers that
/// no other row mentions, and the later rows only mention later identifiers.
pub open spec fn echelon(rows: Seq<RowModel>, pivots: int) -> bool {
    &&& matrix::all_canonical(rows)
    &&& 0 <= pivots <= rows.len()
    &&& forall|i: int|
        0 <= i < pivots ==> (#[trigger] rows[i]).coefficients.len() > 0 && rows[i].coefficients[0].1 == 1
    &&& forall|i: int, j: int|
        #![trigger rows[i], rows[j]]
        0 <= i < pivots && i < j < rows.len() && rows[j].coefficients.len() > 0 ==> rows[i].coefficients[0].0
            < rows[j].coefficients[0].0
    &&& forall|i: int, j: int|
        #![trigger rows[i], rows[j]]
        0 <= i < pivots && 0 <= j < rows.len() && i != j ==> matrix::coefficient_of(
            rows[j].coefficients,
            rows[i].coefficients[0].0,
        ) == 0
}

/// Reduced rows: each either leads with coefficient one at a symbol that no other
/// row mentions, or mentions no symbol at all and comes after those that do.
pub open spec fn reduced(rows: Seq<RowModel>) -> bool {
    exists|pivots: int| #[trigger] echelon(rows, pivots) && forall|j: int|
        pivots <= j < rows.len() ==> (#[trigger] rows[j]).coefficients.len() == 0
}

proof fn lemma_step_echelon(rows: Seq<RowModel>, pivot: int, best: int)
    requires
        echelon(rows, pivot),
        pivot < rows.len(),
        matrix::best_pivot(rows, pivot, rows.len() as int) == Some(best),
    ensures
        echelon(matrix::pivot_step(rows, pivot, best), pivot + 1),
{
    matrix::lemma_best_pivot(rows, pivot, rows.len() as int);
    let moved = matrix::swapped(rows, pivot, best);
    let after = matrix::pivot_step(rows, pivot, best);
    let source = matrix::normalised(moved[pivot]);
    let id = source.coefficients[0].0;
    matrix::lemma_normalised(moved[pivot]);
    matrix::lemma_step_canonical(rows, pivot, best);
    // Every row from `pivot` on mentions nothing below `id`.
    assert forall|j: int, other: u32| pivot <= j < rows.len() && other < id implies
        #[trigger] matrix::coefficient_of(moved[j].coefficients, other) == 0 by {
        assert(moved[j] == rows[if j == pivot { best } else if j == best { pivot } else { j }]);
        matrix::lemma_below_lead(moved[j].coefficients, other);
    }
    assert forall|other: u32| other < id implies #[trigger] matrix::coefficient_of(source.coefficients, other)
        == 0 by {
        matrix::lemma_below_lead(source.coefficients, other);
    }
    assert forall|i: int| 0 <= i < pivot implies #[trigger] moved[i] == rows[i] && rows[i].coefficients[0].0 < id by {
        assert(rows[best].coefficients.len() > 0);
    }
    // What each cleared row has at each identifier.
    assert forall|j: int, other: u32| 0 <= j < rows.len() && j != pivot && other != id && matrix::coefficient_of(
        source.coefficients,
        other,
    ) == 0 implies #[trigger] matrix::coefficient_of(after[j].coefficients, other) == matrix::coefficient_of(
        moved[j].coefficients,
        other,
    ) by {
        matrix::lemma_cleared(moved[j], source, id, other);
        gf256::lemma_product_units(matrix::coefficient_of(moved[j].coefficients, id), 0);
        gf256::lemma_xor(matrix::coefficient_of(moved[j].coefficients, other), 0, 0);
    }
    assert forall|i: int| 0 <= i < pivot implies (#[trigger] after[i]).coefficients.len() > 0
        && after[i].coefficients[0] == (rows[i].coefficients[0].0, 1u8) by {
        let lead = rows[i].coefficients[0].0;
        assert(moved[i] == rows[i]);
        matrix::lemma_mentions(rows[i].coefficients, 0);
        assert(matrix::coefficient_of(after[i].coefficients, lead) == 1);
        assert forall|other: u32| other < lead implies #[trigger] matrix::coefficient_of(
            after[i].coefficients,
            other,
        ) == 0 by {
            matrix::lemma_below_lead(rows[i].coefficients, other);
        }
        matrix::lemma_leads(after[i].coefficients, lead);
    }
    assert(after[pivot] == source);
    assert forall|j: int| 0 <= j < rows.len() && j != pivot implies matrix::coefficient_of(
        (#[trigger] after[j]).coefficients,
        id,
    ) == 0 by {
        matrix::lemma_cleared(moved[j], source, id, id);
    }
    assert forall|j: int| pivot < j < rows.len() && (#[trigger] after[j]).coefficients.len() > 0 implies id
        < after[j].coefficients[0].0 by {
        let first = after[j].coefficients[0].0;
        matrix::lemma_mentions(after[j].coefficients, 0);
        if first < id {
            assert(matrix::coefficient_of(moved[j].coefficients, first) == 0);
        }
    }
    assert forall|i: int, j: int|
        #![trigger after[i], after[j]]
        0 <= i < pivot + 1 && i < j < after.len() && after[j].coefficients.len() > 0 implies after[i].coefficients[0].0
        < after[j].coefficients[0].0 by {
        if i < pivot {
            assert(moved[i] == rows[i]);
            if j < pivot {
                assert(rows[i].coefficients[0].0 < rows[j].coefficients[0].0);
            } else if j > pivot {
                assert(id < after[j].coefficients[0].0);
            }
        }
    }
    assert forall|i: int, j: int|
        #![trigger after[i], after[j]]
        0 <= i < pivot + 1 && 0 <= j < after.len() && i != j implies matrix::coefficient_of(
        after[j].coefficients,
        after[i].coefficients[0].0,
    ) == 0 by {
        if i < pivot {
            let lead = rows[i].coefficients[0].0;
            assert(moved[i] == rows[i]);
            if j == pivot {
                assert(matrix::coefficient_of(source.coefficients, lead) == 0);
            } else {
                let origin = if j == best { pivot } else { j };
                assert(moved[j] == rows[origin]);
                assert(matrix::coefficient_of(rows[origin].coefficients, lead) == 0);
                assert(matrix::coefficient_of(after[j].coefficients, lead) == matrix::coefficient_of(
                    moved[j].coefficients,
                    lead,
                ));
            }
        }
    }
}

proof fn lemma_eliminated_echelon(rows: Seq<RowModel>, pivot: int)
    requires
        echelon(rows, pivot),
    ensures
        reduced(matrix::eliminated(rows, pivot)),
    decreases rows.len() - pivot,
{
    if pivot < rows.len() {
        matrix::lemma_best_pivot(rows, pivot, rows.len() as int);
        match matrix::best_pivot(rows, pivot, rows.len() as int) {
            None => {
                assert(echelon(rows, pivot));
            },
            Some(best) => {
                lemma_step_echelon(rows, pivot, best);
                lemma_eliminated_echelon(matrix::pivot_step(rows, pivot, best), pivot + 1);
            },
        }
    } else {
        assert(echelon(rows, pivot));
    }
}

/// Elimination brings every set of equations to reduced form.
pub proof fn lemma_elimination_reduces(rows: Seq<RowModel>)
    requires
        matrix::all_canonical(rows),
    ensures
        reduced(matrix::eliminated(rows, 0)),
{
    lemma_eliminated_echelon(rows, 0);
}

/// What `determined` lists comes from single-symbol rows, in increasing order.
proof fn lemma_determined(rows: Seq<RowModel>, end: int)
    requires
        reduced(rows),
        0 <= end <= rows.len(),
    ensures
        forall|i: int, j: int|
            0 <= i < j < matrix::determined(rows, end).len() ==> (#[trigger] matrix::determined(rows, end)[i]).0
                < (#[trigger] matrix::determined(rows, end)[j]).0,
        forall|i: int|
            0 <= i < matrix::determined(rows, end).len() ==> exists|r: int|
                0 <= r < end && (#[trigger] rows[r]).coefficients.len() == 1 && rows[r].coefficients[0] == (
                    (#[trigger] matrix::determined(rows, end)[i]).0,
                    1u8,
                ) && rows[r].data == matrix::determined(rows, end)[i].1,
    decreases end,
{
    if end > 0 {
        lemma_determined(rows, end - 1);
        let prior = matrix::determined(rows, end - 1);
        let all = matrix::determined(rows, end);
        let pivots = choose|pivots: int| #[trigger] echelon(rows, pivots) && forall|j: int|
            pivots <= j < rows.len() ==> (#[trigger] rows[j]).coefficients.len() == 0;
        if rows[end - 1].coefficients.len() == 1 {
            assert(end - 1 < pivots);
            assert forall|i: int| 0 <= i < prior.len() implies (#[trigger] prior[i]).0 < all.last().0 by {
                let r = choose|r: int|
                    0 <= r < end - 1 && (#[trigger] rows[r]).coefficients.len() == 1 && rows[r].coefficients[0] == (
                        prior[i].0,
                        1u8,
                    ) && rows[r].data == prior[i].1;
                assert(rows[r].coefficients[0].0 < rows[end - 1].coefficients[0].0);
            }
            assert forall|i: int| 0 <= i < all.len() implies exists|r: int|
                0 <= r < end && (#[trigger] rows[r]).coefficients.len() == 1 && rows[r].coefficients[0] == (
                    (#[trigger] all[i]).0,
                    1u8,
                ) && rows[r].data == all[i].1 by {
                if i < prior.len() {
                    assert(all[i] == prior[i]);
                } else {
                    assert(rows[end - 1].coefficients[0] == (all[i].0, 1u8));
                }
            }
            assert forall|i: int, j: int| 0 <= i < j < all.len() implies (#[trigger] all[i]).0 < (
            #[trigger] all[j]).0 by {
                assert(all[i] == prior[i]);
                if j < prior.len() {
                    assert(all[j] == prior[j]);
                }
            }
        }
    }
}

/// The symbols that elimination determines are listed once each, in increasing order,
/// and every solution of the equations holds exactly those bytes, zeros following.
pub proof fn lemma_recovered_symbols_are_forced(
    rows: Seq<RowModel>,
    symbols: spec_fn(u32) -> Seq<u8>,
    which: int,
    at: int,
)
    requires
        matrix::all_canonical(rows),
        solves(rows, symbols),
        0 <= which < matrix::determined(matrix::eliminated(rows, 0), rows.len() as int).len(),
    ensures
        ({
            let found = matrix::determined(matrix::eliminated(rows, 0), rows.len() as int);
            &&& matrix::byte_at(symbols(found[which].0), at) == matrix::byte_at(found[which].1, at)
            &&& forall|i: int, j: int| 0 <= i < j < found.len() ==> (#[trigger] found[i]).0 < (#[trigger] found[j]).0
        }),
{
    let after = matrix::eliminated(rows, 0);
    let found = matrix::determined(after, rows.len() as int);
    lemma_elimination_reduces(rows);
    lemma_elimination_keeps_solutions(rows, 0, symbols);
    lemma_determined(after, rows.len() as int);
    let item = found[which];
    let r = choose|r: int|
        0 <= r < rows.len() && (#[trigger] after[r]).coefficients.len() == 1 && after[r].coefficients[0] == (
            item.0,
            1u8,
        ) && after[r].data == item.1;
    assert(holds(after[r], symbols));
    assert(holds_at(after[r], symbols, at));
    assert(after[r].coefficients =~= seq![(item.0, 1u8)]);
    lemma_combination_single((item.0, 1u8), symbols, at);
    gf256::lemma_product_units(matrix::byte_at(symbols(item.0), at), 0);
}

/// Equations that elimination finds contradictory have no solution.
pub proof fn lemma_contradiction_has_no_solution(rows: Seq<RowModel>, symbols: spec_fn(u32) -> Seq<u8>)
    requires
        matrix::all_canonical(rows),
        matrix::contradictory(matrix::eliminated(rows, 0)),
    ensures
        !solves(rows, symbols),
{
    let after = matrix::eliminated(rows, 0);
    lemma_elimination_keeps_solutions(rows, 0, symbols);
    if solves(rows, symbols) {
        let r = choose|r: int| 0 <= r < after.len() && matrix::row_contradicts(#[trigger] after[r]);
        let k = choose|k: int| 0 <= k < after[r].data.len() && #[trigger] after[r].data[k] != 0;
        assert(holds(after[r], symbols));
        assert(holds_at(after[r], symbols, k));
    }
}

/// The assignment that gives every leading symbol its row's right-hand side.
spec fn witness(rows: Seq<RowModel>, pivots: int) -> spec_fn(u32) -> Seq<u8> {
    |id: u32|
        if exists|r: int| 0 <= r < pivots && (#[trigger] rows[r]).coefficients[0].0 == id {
            rows[choose|r: int| 0 <= r < pivots && (#[trigger] rows[r]).coefficients[0].0 == id].data
        } else {
            Seq::empty()
        }
}

pub(crate) proof fn lemma_combination_of_zeros(
    coefficients: Seq<(u32, u8)>,
    symbols: spec_fn(u32) -> Seq<u8>,
    at: int,
)
    requires
        forall|i: int| 0 <= i < coefficients.len() ==> symbols((#[trigger] coefficients[i]).0).len() == 0,
    ensures
        combination(coefficients, symbols, at) == 0,
    decreases coefficients.len(),
{
    if coefficients.len() > 0 {
        let shorter = coefficients.drop_last();
        assert forall|i: int| 0 <= i < shorter.len() implies symbols((#[trigger] shorter[i]).0).len() == 0 by {
            assert(shorter[i] == coefficients[i]);
        }
        lemma_combination_of_zeros(shorter, symbols, at);
        assert(coefficients.last() == coefficients[coefficients.len() - 1]);
        gf256::lemma_product_units(coefficients.last().1, 0);
        gf256::lemma_xor(0, 0, 0);
    }
}

/// Equations that elimination does not find contradictory have a solution.
pub proof fn law_consistent_equations_have_a_solution(rows: Seq<RowModel>)
    requires
        matrix::all_canonical(rows),
        !matrix::contradictory(matrix::eliminated(rows, 0)),
    ensures
        exists|symbols: spec_fn(u32) -> Seq<u8>| #[trigger] solves(rows, symbols),
{
    let after = matrix::eliminated(rows, 0);
    lemma_elimination_reduces(rows);
    let pivots = choose|pivots: int| #[trigger] echelon(after, pivots) && forall|j: int|
        pivots <= j < after.len() ==> (#[trigger] after[j]).coefficients.len() == 0;
    let symbols = witness(after, pivots);
    assert forall|i: int| 0 <= i < after.len() implies holds(#[trigger] after[i], symbols) by {
        assert(!matrix::row_contradicts(after[i]));
        assert forall|at: int| #[trigger] holds_at(after[i], symbols, at) by {
            if i < pivots {
                let list = after[i].coefficients;
                let lead = list[0].0;
                let r = choose|r: int| 0 <= r < pivots && (#[trigger] after[r]).coefficients[0].0 == lead;
                assert(after[r].coefficients[0].0 == lead && 0 <= r < pivots) by {
                    assert(after[i].coefficients[0].0 == lead);
                }
                assert(r == i) by {
                    if r < i {
                        assert(after[r].coefficients[0].0 < after[i].coefficients[0].0);
                    }
                    if i < r {
                        assert(after[i].coefficients[0].0 < after[r].coefficients[0].0);
                    }
                }
                assert(symbols(lead) == after[i].data);
                lemma_combination_splits(list, symbols, at, 1);
                assert(list.take(1) =~= seq![(lead, 1u8)]);
                lemma_combination_single((lead, 1u8), symbols, at);
                let rest = list.skip(1);
                assert forall|n: int| 0 <= n < rest.len() implies symbols((#[trigger] rest[n]).0).len() == 0 by {
                    let id = rest[n].0;
                    assert(rest[n] == list[n + 1]);
                    matrix::lemma_mentions(list, n + 1);
                    if exists|q: int| 0 <= q < pivots && (#[trigger] after[q]).coefficients[0].0 == id {
                        let q = choose|q: int| 0 <= q < pivots && (#[trigger] after[q]).coefficients[0].0 == id;
                        assert(q != i);
                        assert(matrix::coefficient_of(list, after[q].coefficients[0].0) == 0);
                    }
                }
                lemma_combination_of_zeros(rest, symbols, at);
                let byte = matrix::byte_at(after[i].data, at);
                gf256::lemma_product_units(byte, 0);
                gf256::lemma_xor(byte, 0, 0);
            } else {
                assert(after[i].coefficients.len() == 0);
                if 0 <= at < after[i].data.len() {
                    assert(after[i].data[at] == 0);
                }
            }
        }
    }
    assert(solves(after, symbols));
    lemma_elimination_keeps_solutions(rows, 0, symbols);
}

/// Symbols with others added to them, byte by byte.
spec fn summed(symbols: spec_fn(u32) -> Seq<u8>, added: spec_fn(u32) -> Seq<u8>) -> spec_fn(u32) -> Seq<u8> {
    |id: u32|
        Seq::new(
            if symbols(id).len() > added(id).len() {
                symbols(id).len()
            } else {
                added(id).len()
            },
            |at: int| matrix::byte_at(symbols(id), at) ^ matrix::byte_at(added(id), at),
        )
}

proof fn lemma_summed_byte(symbols: spec_fn(u32) -> Seq<u8>, added: spec_fn(u32) -> Seq<u8>, id: u32, at: int)
    ensures
        matrix::byte_at(summed(symbols, added)(id), at) == matrix::byte_at(symbols(id), at) ^ matrix::byte_at(
            added(id),
            at,
        ),
{
    gf256::lemma_xor(0, 0, 0);
}

proof fn lemma_four_sums(a: u8, b: u8, c: u8, d: u8)
    by (bit_vector)
    ensures
        (a ^ b) ^ (c ^ d) == (a ^ c) ^ (b ^ d),
{
}

/// Sums are combined apart.
proof fn lemma_combination_summed(
    coefficients: Seq<(u32, u8)>,
    symbols: spec_fn(u32) -> Seq<u8>,
    added: spec_fn(u32) -> Seq<u8>,
    at: int,
)
    ensures
        combination(coefficients, summed(symbols, added), at) == combination(coefficients, symbols, at)
            ^ combination(coefficients, added, at),
    decreases coefficients.len(),
{
    if coefficients.len() == 0 {
        gf256::lemma_xor(0, 0, 0);
    } else {
        let front = coefficients.drop_last();
        let (id, factor) = coefficients.last();
        lemma_combination_summed(front, symbols, added, at);
        lemma_summed_byte(symbols, added, id, at);
        let own = matrix::byte_at(symbols(id), at);
        let more = matrix::byte_at(added(id), at);
        gf256::lemma_product_distributes(own, more, factor);
        lemma_four_sums(
            combination(front, symbols, at),
            combination(front, added, at),
            gf256::product(own, factor),
            gf256::product(more, factor),
        );
    }
}

/// Whether a symbol leads one of the first `pivots` rows.
spec fn leads(rows: Seq<RowModel>, pivots: int, id: u32) -> bool {
    exists|r: int| 0 <= r < pivots && (#[trigger] rows[r]).coefficients[0].0 == id
}

/// What can be added to any solution of reduced rows: one to a symbol that leads no row, and to
/// every leading symbol what makes up for it.
spec fn slack(rows: Seq<RowModel>, pivots: int, free: u32) -> spec_fn(u32) -> Seq<u8> {
    |id: u32|
        if id == free {
            seq![1u8]
        } else if leads(rows, pivots, id) {
            let r = choose|r: int| 0 <= r < pivots && (#[trigger] rows[r]).coefficients[0].0 == id;
            let factor = matrix::coefficient_of(rows[r].coefficients, free);
            if factor == 0 {
                Seq::empty()
            } else {
                seq![factor]
            }
        } else {
            Seq::empty()
        }
}

/// What the slack of a leading symbol is.
proof fn lemma_slack_of_lead(rows: Seq<RowModel>, pivots: int, free: u32, r: int)
    requires
        echelon(rows, pivots),
        0 <= r < pivots,
        !leads(rows, pivots, free),
    ensures
        ({
            let factor = matrix::coefficient_of(rows[r].coefficients, free);
            slack(rows, pivots, free)(rows[r].coefficients[0].0) == (if factor == 0 {
                Seq::<u8>::empty()
            } else {
                seq![factor]
            })
        }),
{
    let lead = rows[r].coefficients[0].0;
    assert(leads(rows, pivots, lead));
    let other = choose|o: int| 0 <= o < pivots && (#[trigger] rows[o]).coefficients[0].0 == lead;
    assert(other == r) by {
        if other < r {
            assert(rows[other].coefficients[0].0 < rows[r].coefficients[0].0);
        }
        if r < other {
            assert(rows[r].coefficients[0].0 < rows[other].coefficients[0].0);
        }
    }
}

/// The slack vanishes in every row.
proof fn lemma_slack_vanishes(rows: Seq<RowModel>, pivots: int, free: u32, i: int, at: int)
    requires
        echelon(rows, pivots),
        forall|j: int| pivots <= j < rows.len() ==> (#[trigger] rows[j]).coefficients.len() == 0,
        !leads(rows, pivots, free),
        0 <= i < rows.len(),
    ensures
        combination(rows[i].coefficients, slack(rows, pivots, free), at) == 0,
{
    if i < pivots {
        let list = rows[i].coefficients;
        let added = slack(rows, pivots, free);
        let (lead, one) = list[0];
        let rest = list.skip(1);
        let factor = matrix::coefficient_of(list, free);
        assert(matrix::canonical(list));
        lemma_slack_of_lead(rows, pivots, free, i);
        assert(lead != free) by {
            assert(rows[i].coefficients[0].0 == lead);
        }
        lemma_combination_splits(list, added, at, 1);
        assert(list.take(1) =~= seq![(lead, 1u8)]);
        lemma_combination_single((lead, 1u8), added, at);
        gf256::lemma_product_units(matrix::byte_at(added(lead), at), 0);
        assert forall|n: int| 0 <= n < rest.len() && (#[trigger] rest[n]).0 != free implies added(rest[n].0).len()
            == 0 by {
            let id = rest[n].0;
            assert(rest[n] == list[n + 1]);
            matrix::lemma_mentions(list, n + 1);
            if leads(rows, pivots, id) {
                let q = choose|q: int| 0 <= q < pivots && (#[trigger] rows[q]).coefficients[0].0 == id;
                assert(q != i) by {
                    assert(list[0].0 < list[n + 1].0);
                }
                assert(matrix::coefficient_of(rows[i].coefficients, rows[q].coefficients[0].0) == 0);
            }
        }
        matrix::lemma_mentions_iff(list, free);
        matrix::lemma_rank(list, free);
        if factor == 0 {
            assert forall|n: int| 0 <= n < rest.len() implies added((#[trigger] rest[n]).0).len() == 0 by {
                assert(rest[n] == list[n + 1]);
                matrix::lemma_mentions(list, n + 1);
            }
            lemma_combination_of_zeros(rest, added, at);
            gf256::lemma_xor(0, 0, 0);
        } else {
            let place = matrix::rank(list, free);
            assert(list[place] == (free, factor));
            let k = place - 1;
            assert(rest[k] == (free, factor));
            let front = rest.take(k);
            let back = rest.skip(k + 1);
            assert forall|n: int| 0 <= n < front.len() implies added((#[trigger] front[n]).0).len() == 0 by {
                assert(front[n] == rest[n] && rest[n] == list[n + 1] && list[n + 1].0 < list[place].0);
            }
            assert forall|n: int| 0 <= n < back.len() implies added((#[trigger] back[n]).0).len() == 0 by {
                assert(back[n] == rest[n + k + 1] && rest[n + k + 1] == list[n + k + 2] && list[place].0 < list[n + k
                    + 2].0);
            }
            lemma_combination_of_zeros(front, added, at);
            lemma_combination_of_zeros(back, added, at);
            lemma_combination_splits(rest, added, at, k);
            let tail = rest.skip(k);
            lemma_combination_splits(tail, added, at, 1);
            assert(tail.take(1) =~= seq![(free, factor)]);
            assert(tail.skip(1) =~= back);
            lemma_combination_single((free, factor), added, at);
            gf256::lemma_product_units(factor, 0);
            let share = gf256::product(matrix::byte_at(added(free), at), factor);
            gf256::lemma_xor(share, 0, 0);
            gf256::lemma_xor(factor, 0, 0);
            gf256::lemma_xor(0, 0, 0);
            assert(share == matrix::byte_at(added(lead), at)) by {
                if at != 0 {
                    gf256::lemma_product_units(factor, 0);
                }
            }
        }
    }
}

proof fn lemma_single_row_is_determined(rows: Seq<RowModel>, end: int, r: int)
    requires
        0 <= r < end <= rows.len(),
        rows[r].coefficients.len() == 1,
    ensures
        exists|i: int|
            0 <= i < matrix::determined(rows, end).len() && (#[trigger] matrix::determined(rows, end)[i]).0
                == rows[r].coefficients[0].0,
    decreases end,
{
    let all = matrix::determined(rows, end);
    let prior = matrix::determined(rows, end - 1);
    if r == end - 1 {
        assert(all[prior.len() as int].0 == rows[r].coefficients[0].0);
    } else {
        lemma_single_row_is_determined(rows, end - 1, r);
        let i = choose|i: int| 0 <= i < prior.len() && (#[trigger] prior[i]).0 == rows[r].coefficients[0].0;
        assert(all[i] == prior[i]);
    }
}

/// Recovery is complete: a symbol that elimination does not give back is one that the equations
/// do not determine. They have another solution, which differs in that symbol.
pub proof fn law_recovery_is_complete(rows: Seq<RowModel>, symbols: spec_fn(u32) -> Seq<u8>, id: u32)
    requires
        matrix::all_canonical(rows),
        solves(rows, symbols),
        forall|i: int|
            0 <= i < matrix::determined(matrix::eliminated(rows, 0), rows.len() as int).len() ==> (
            #[trigger] matrix::determined(matrix::eliminated(rows, 0), rows.len() as int)[i]).0 != id,
    ensures
        exists|other: spec_fn(u32) -> Seq<u8>| #[trigger]
            solves(rows, other) && matrix::byte_at(other(id), 0) != matrix::byte_at(symbols(id), 0),
{
    let after = matrix::eliminated(rows, 0);
    lemma_elimination_reduces(rows);
    lemma_elimination_keeps_solutions(rows, 0, symbols);
    let pivots = choose|pivots: int| #[trigger] echelon(after, pivots) && forall|j: int|
        pivots <= j < after.len() ==> (#[trigger] after[j]).coefficients.len() == 0;
    let free = if leads(after, pivots, id) {
        let r = choose|r: int| 0 <= r < pivots && (#[trigger] after[r]).coefficients[0].0 == id;
        after[r].coefficients[1].0
    } else {
        id
    };
    assert(!leads(after, pivots, free) && matrix::byte_at(slack(after, pivots, free)(id), 0) != 0) by {
        if leads(after, pivots, id) {
            let r = choose|r: int| 0 <= r < pivots && (#[trigger] after[r]).coefficients[0].0 == id;
            let list = after[r].coefficients;
            assert(matrix::canonical(list));
            if list.len() == 1 {
                lemma_single_row_is_determined(after, rows.len() as int, r);
            }
            assert(list.len() >= 2);
            matrix::lemma_mentions(list, 1);
            assert(list[0].0 < list[1].0 && list[1].1 != 0);
            if leads(after, pivots, free) {
                let q = choose|q: int| 0 <= q < pivots && (#[trigger] after[q]).coefficients[0].0 == free;
                assert(q != r);
                assert(matrix::coefficient_of(after[r].coefficients, after[q].coefficients[0].0) == 0);
            }
            lemma_slack_of_lead(after, pivots, free, r);
        }
    }
    let added = slack(after, pivots, free);
    let other = summed(symbols, added);
    assert forall|i: int| 0 <= i < after.len() implies holds(#[trigger] after[i], other) by {
        assert(holds(after[i], symbols));
        assert forall|at: int| #[trigger] holds_at(after[i], other, at) by {
            assert(holds_at(after[i], symbols, at));
            lemma_combination_summed(after[i].coefficients, symbols, added, at);
            lemma_slack_vanishes(after, pivots, free, i, at);
            gf256::lemma_xor(combination(after[i].coefficients, symbols, at), 0, 0);
        }
    }
    assert(solves(after, other));
    lemma_elimination_keeps_solutions(rows, 0, other);
    lemma_summed_byte(symbols, added, id, 0);
    let own = matrix::byte_at(symbols(id), 0);
    let more = matrix::byte_at(added(id), 0);
    gf256::lemma_xor(own, more, own);
    gf256::lemma_xor(more, own, own);
}

}
