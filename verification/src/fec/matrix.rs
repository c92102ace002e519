//! Linear equations over missing symbols, and their bounded elimination.
use crate::fec::room;
use crate::fec::room::{bounded_vec, extend_bytes, extend_terms};
use crate::gf256;
use vstd::prelude::*;

verus! {

/// Bounded decoder errors. Peer input is rejected before committed state changes.
#[derive(Clone, Copy, Debug, PartialEq, Eq, Structural)]
pub enum FecError {
    /// A repair span must cover between one symbol and the largest span.
    InvalidSpan,
    /// A symbol is empty or larger than the symbol size allows.
    InvalidSymbolSize,
    /// The decoder holds as many equations as it may.
    RowCapacity,
    /// The endpoint's recovery memory is exhausted.
    MemoryCapacity,
    /// The operation would cost more steps than it was given.
    WorkBudget,
    /// An equation contradicts known source data.
    ContradictoryRepair,
}

/// One equation: the sum of the symbols named in `coefficients`, each times its
/// coefficient, is `data`.
#[derive(Debug)]
pub struct Row {
    /// Symbol identifiers in increasing order, each with a non-zero coefficient.
    pub coefficients: Vec<(u32, u8)>,
    /// The right-hand side; bytes past its end are zero.
    pub data: Vec<u8>,
}

/// The mathematical content of a [`Row`].
#[verifier::ext_equal]
pub struct RowModel {
    pub coefficients: Seq<(u32, u8)>,
    pub data: Seq<u8>,
}

impl View for Row {
    type V = RowModel;

    open spec fn view(&self) -> RowModel {
        RowModel { coefficients: self.coefficients@, data: self.data@ }
    }
}

/// The equations that a sequence of rows stands for.
pub open spec fn models(rows: Seq<Row>) -> Seq<RowModel> {
    rows.map_values(|row: Row| row@)
}

// ---------------------------------------------------------------------------
// Work accounting
// ---------------------------------------------------------------------------

/// The work counter after `steps` further steps; it saturates.
pub open spec fn spent(work: int, steps: int) -> int {
    if work + steps > usize::MAX {
        usize::MAX as int
    } else {
        work + steps
    }
}

/// Whether one of `steps` further steps finds the budget exhausted.
pub open spec fn exhausts(work: int, steps: int, budget: int) -> bool {
    steps > 0 && spent(work, steps) > budget
}

/// Counts one step of work against `budget`.
pub fn spend(work: &mut usize, budget: usize) -> (result: Result<(), FecError>)
    ensures
        *final(work) == spent(*old(work) as int, 1),
        result == (if exhausts(*old(work) as int, 1, budget as int) {
            Err::<(), FecError>(FecError::WorkBudget)
        } else {
            Ok(())
        }),
{
    *work = work.saturating_add(1);
    if *work > budget {
        Err(FecError::WorkBudget)
    } else {
        Ok(())
    }
}

// ---------------------------------------------------------------------------
// Coefficient lists
// ---------------------------------------------------------------------------

/// Identifiers strictly increase and no coefficient is zero.
pub open spec fn canonical(coefficients: Seq<(u32, u8)>) -> bool {
    &&& forall|i: int, j: int|
        0 <= i < j < coefficients.len() ==> (#[trigger] coefficients[i]).0 < (#[trigger] coefficients[j]).0
    &&& forall|i: int| 0 <= i < coefficients.len() ==> (#[trigger] coefficients[i]).1 != 0
}

/// Every equation lists its coefficients canonically.
pub open spec fn all_canonical(rows: Seq<RowModel>) -> bool {
    forall|i: int| 0 <= i < rows.len() ==> canonical((#[trigger] rows[i]).coefficients)
}

/// How many identifiers in a canonical list are below `id`.
pub open spec fn rank(coefficients: Seq<(u32, u8)>, id: u32) -> int
    decreases coefficients.len(),
{
    if coefficients.len() == 0 {
        0
    } else if coefficients.last().0 < id {
        coefficients.len() as int
    } else {
        rank(coefficients.drop_last(), id)
    }
}

/// Whether `id` has a coefficient in the list.
pub open spec fn mentions(coefficients: Seq<(u32, u8)>, id: u32) -> bool {
    let at = rank(coefficients, id);
    at < coefficients.len() && coefficients[at].0 == id
}

/// The coefficient of `id`, zero where the list does not mention it.
pub open spec fn coefficient_of(coefficients: Seq<(u32, u8)>, id: u32) -> u8 {
    if mentions(coefficients, id) {
        coefficients[rank(coefficients, id)].1
    } else {
        0
    }
}

/// The list after `value` was added to the coefficient of `id`.
pub open spec fn add_term(coefficients: Seq<(u32, u8)>, id: u32, value: u8) -> Seq<(u32, u8)> {
    let at = rank(coefficients, id);
    if mentions(coefficients, id) {
        if coefficients[at].1 ^ value == 0 {
            coefficients.remove(at)
        } else {
            coefficients.update(at, (id, coefficients[at].1 ^ value))
        }
    } else {
        coefficients.insert(at, (id, value))
    }
}

/// `target` plus `factor` times the first `count` terms of `source`.
pub open spec fn merged(target: Seq<(u32, u8)>, source: Seq<(u32, u8)>, factor: u8, count: nat) -> Seq<
    (u32, u8),
>
    decreases count,
{
    if count == 0 {
        target
    } else {
        let term = source[count - 1];
        add_term(merged(target, source, factor, (count - 1) as nat), term.0, gf256::product(term.1, factor))
    }
}

pub(crate) proof fn lemma_rank(coefficients: Seq<(u32, u8)>, id: u32)
    requires
        canonical(coefficients),
    ensures
        0 <= rank(coefficients, id) <= coefficients.len(),
        forall|i: int| 0 <= i < rank(coefficients, id) ==> (#[trigger] coefficients[i]).0 < id,
        forall|i: int| rank(coefficients, id) <= i < coefficients.len() ==> (#[trigger] coefficients[i]).0 >= id,
    decreases coefficients.len(),
{
    if coefficients.len() > 0 {
        let rest = coefficients.drop_last();
        if coefficients.last().0 < id {
        } else {
            assert(canonical(rest));
            lemma_rank(rest, id);
            assert forall|i: int| 0 <= i < rank(rest, id) implies (#[trigger] coefficients[i]).0 < id by {
                assert(rest[i] == coefficients[i]);
            }
            assert forall|i: int| rank(rest, id) <= i < coefficients.len() implies (#[trigger] coefficients[i]).0
                >= id by {
                if i < rest.len() {
                    assert(rest[i] == coefficients[i]);
                }
            }
        }
    }
}

/// In a canonical list an identifier is mentioned exactly where it stands.
pub proof fn lemma_mentions(coefficients: Seq<(u32, u8)>, at: int)
    requires
        canonical(coefficients),
        0 <= at < coefficients.len(),
    ensures
        mentions(coefficients, coefficients[at].0),
        rank(coefficients, coefficients[at].0) == at,
        coefficient_of(coefficients, coefficients[at].0) == coefficients[at].1,
{
    lemma_rank(coefficients, coefficients[at].0);
}

pub(crate) proof fn lemma_add_term_canonical(coefficients: Seq<(u32, u8)>, id: u32, value: u8)
    requires
        canonical(coefficients),
        value != 0,
    ensures
        canonical(add_term(coefficients, id, value)),
        add_term(coefficients, id, value).len() <= coefficients.len() + 1,
{
    lemma_rank(coefficients, id);
}

/// Adding a term changes the coefficient of its identifier and no other.
pub proof fn lemma_add_term(coefficients: Seq<(u32, u8)>, id: u32, value: u8, other: u32)
    requires
        canonical(coefficients),
        value != 0,
    ensures
        canonical(add_term(coefficients, id, value)),
        coefficient_of(add_term(coefficients, id, value), other) == (if other == id {
            coefficient_of(coefficients, id) ^ value
        } else {
            coefficient_of(coefficients, other)
        }),
{
    let after = add_term(coefficients, id, value);
    lemma_add_term_canonical(coefficients, id, value);
    lemma_rank(coefficients, id);
    lemma_rank(coefficients, other);
    lemma_rank(after, other);
    gf256::lemma_xor(value, 0, 0);
    let at = rank(coefficients, id);
    if other == id {
        if mentions(coefficients, id) {
            if coefficients[at].1 ^ value == 0 {
                assert(forall|i: int| 0 <= i < after.len() ==> (#[trigger] after[i]).0 != id);
            } else {
                assert(after[at].0 == id);
                lemma_mentions(after, at);
            }
        } else {
            assert(after[at].0 == id);
            lemma_mentions(after, at);
        }
    } else {
        if mentions(coefficients, other) {
            let o = rank(coefficients, other);
            if mentions(coefficients, id) {
                if coefficients[at].1 ^ value == 0 {
                    let n = if o < at { o } else { o - 1 };
                    assert(after[n] == coefficients[o]);
                    lemma_mentions(after, n);
                } else {
                    assert(after[o] == coefficients[o]);
                    lemma_mentions(after, o);
                }
            } else {
                let n = if o < at { o } else { o + 1 };
                assert(after[n] == coefficients[o]);
                lemma_mentions(after, n);
            }
        } else {
            assert forall|i: int| 0 <= i < after.len() implies (#[trigger] after[i]).0 != other by {
                if after[i].0 == other {
                    if mentions(coefficients, id) {
                        if coefficients[at].1 ^ value == 0 {
                            let n = if i < at { i } else { i + 1 };
                            assert(after[i] == coefficients[n]);
                            lemma_mentions(coefficients, n);
                        } else {
                            assert(after[i] == coefficients[i]);
                            lemma_mentions(coefficients, i);
                        }
                    } else {
                        let n = if i < at { i } else { i - 1 };
                        assert(after[i] == coefficients[n]);
                        lemma_mentions(coefficients, n);
                    }
                }
            }
        }
    }
}

/// Merging adds the scaled coefficients.
pub proof fn lemma_merged(target: Seq<(u32, u8)>, source: Seq<(u32, u8)>, factor: u8, count: nat, other: u32)
    requires
        canonical(target),
        canonical(source),
        factor != 0,
        count <= source.len(),
    ensures
        canonical(merged(target, source, factor, count)),
        coefficient_of(merged(target, source, factor, count), other) == coefficient_of(target, other)
            ^ gf256::product(coefficient_of(source.take(count as int), other), factor),
        merged(target, source, factor, count).len() <= target.len() + count,
    decreases count,
{
    gf256::lemma_product_units(factor, 0);
    gf256::lemma_xor(coefficient_of(target, other), 0, 0);
    if count == 0 {
        assert(source.take(0).len() == 0);
        assert(!mentions(source.take(0), other));
    } else {
        let prior = (count - 1) as nat;
        let term = source[count - 1];
        lemma_merged(target, source, factor, prior, other);
        gf256::lemma_product_units(term.1, factor);
        lemma_add_term(merged(target, source, factor, prior), term.0, gf256::product(term.1, factor), other);
        lemma_add_term_canonical(merged(target, source, factor, prior), term.0, gf256::product(term.1, factor));
        let longer = source.take(count as int);
        let shorter = source.take(prior as int);
        assert(longer.drop_last() =~= shorter);
        assert(canonical(longer));
        assert(canonical(shorter));
        if other == term.0 {
            lemma_mentions(longer, count - 1);
            lemma_merged(target, source, factor, prior, term.0);
            lemma_rank(shorter, other);
            assert(!mentions(shorter, other)) by {
                if mentions(shorter, other) {
                    assert(shorter[rank(shorter, other)] == source[rank(shorter, other)]);
                }
            }
        } else {
            lemma_rank(longer, other);
            lemma_rank(shorter, other);
            if longer.last().0 < other {
                assert(!mentions(longer, other));
                if mentions(shorter, other) {
                    assert(shorter[rank(shorter, other)] == source[rank(shorter, other)]);
                    assert(source[prior as int - 0].0 > source[rank(shorter, other)].0);
                }
            } else {
                assert(rank(longer, other) == rank(shorter, other));
                if mentions(shorter, other) {
                    assert(longer[rank(shorter, other)] == shorter[rank(shorter, other)]);
                }
                if mentions(longer, other) {
                    if rank(longer, other) < prior {
                        assert(longer[rank(shorter, other)] == shorter[rank(shorter, other)]);
                    }
                }
            }
        }
    }
}

// ---------------------------------------------------------------------------
// Row operations
// ---------------------------------------------------------------------------

/// A byte of a right-hand side; bytes past its end are zero.
pub open spec fn byte_at(data: Seq<u8>, at: int) -> u8 {
    if 0 <= at < data.len() {
        data[at]
    } else {
        0
    }
}

/// `target` plus `factor` times `source`, as long as the longer of the two.
pub open spec fn xored(target: Seq<u8>, source: Seq<u8>, factor: u8) -> Seq<u8> {
    Seq::new(
        if target.len() < source.len() {
            source.len()
        } else {
            target.len()
        },
        |i: int| byte_at(target, i) ^ gf256::product(byte_at(source, i), factor),
    )
}

/// A row with both sides multiplied by `factor`.
pub open spec fn scaled(row: RowModel, factor: u8) -> RowModel {
    RowModel {
        coefficients: row.coefficients.map_values(|term: (u32, u8)| (term.0, gf256::product(term.1, factor))),
        data: row.data.map_values(|byte: u8| gf256::product(byte, factor)),
    }
}

/// `target` plus `factor` times `source`; in this field that is also the difference.
pub open spec fn subtracted(target: RowModel, source: RowModel, factor: u8) -> RowModel {
    RowModel {
        coefficients: merged(target.coefficients, source.coefficients, factor, source.coefficients.len()),
        data: xored(target.data, source.data, factor),
    }
}

/// The steps that touching every coefficient and byte of a row costs.
pub open spec fn row_cost(row: RowModel) -> int {
    (row.coefficients.len() + row.data.len()) as int
}

/// Adds `factor` times `source` to the front of `target`.
pub fn xor_scaled(target: &mut Vec<u8>, source: &[u8], factor: u8, work: &mut usize, budget: usize) -> (result: Result<
    (),
    FecError,
>)
    ensures
        result == (if source@.len() > old(target)@.len() {
            Err::<(), FecError>(FecError::InvalidSymbolSize)
        } else if exhausts(*old(work) as int, source@.len() as int, budget as int) {
            Err(FecError::WorkBudget)
        } else {
            Ok(())
        }),
        result is Ok ==> final(target)@ == xored(old(target)@, source@, factor) && *final(work) == spent(
            *old(work) as int,
            source@.len() as int,
        ),
        result == Err::<(), FecError>(FecError::InvalidSymbolSize) ==> final(target)@ == old(target)@ && *final(work)
            == *old(work),
{
    if source.len() > target.len() {
        return Err(FecError::InvalidSymbolSize);
    }
    let mut at: usize = 0;
    while at < source.len()
        invariant
            at <= source@.len() <= target@.len(),
            target@.len() == old(target)@.len(),
            *work == spent(*old(work) as int, at as int),
            !exhausts(*old(work) as int, at as int, budget as int),
            forall|i: int|
                0 <= i < target@.len() ==> #[trigger] target@[i] == (if i < at {
                    old(target)@[i] ^ gf256::product(source@[i], factor)
                } else {
                    old(target)@[i]
                }),
        decreases source@.len() - at,
    {
        spend(work, budget)?;
        target[at] = target[at] ^ gf256::multiply(source[at], factor);
        at += 1;
    }
    proof {
        let expected = xored(old(target)@, source@, factor);
        assert forall|i: int| 0 <= i < target@.len() implies #[trigger] target@[i] == expected[i] by {
            gf256::lemma_product_units(factor, 0);
            gf256::lemma_xor(old(target)@[i], 0, 0);
        }
        assert(target@ =~= expected);
    }
    Ok(())
}

/// Multiplies a row by `factor`.
pub fn scale_row(row: &mut Row, factor: u8, work: &mut usize, budget: usize) -> (result: Result<(), FecError>)
    ensures
        result == (if exhausts(*old(work) as int, row_cost(old(row)@), budget as int) {
            Err::<(), FecError>(FecError::WorkBudget)
        } else {
            Ok(())
        }),
        result is Ok ==> final(row)@ == scaled(old(row)@, factor) && *final(work) == spent(
            *old(work) as int,
            row_cost(old(row)@),
        ),
{
    let mut at: usize = 0;
    while at < row.coefficients.len()
        invariant
            at <= row.coefficients@.len(),
            row.coefficients@.len() == old(row).coefficients@.len(),
            row.data@ == old(row).data@,
            *work == spent(*old(work) as int, at as int),
            !exhausts(*old(work) as int, at as int, budget as int),
            forall|i: int|
                0 <= i < row.coefficients@.len() ==> #[trigger] row.coefficients@[i] == (if i < at {
                    (old(row).coefficients@[i].0, gf256::product(old(row).coefficients@[i].1, factor))
                } else {
                    old(row).coefficients@[i]
                }),
        decreases row.coefficients@.len() - at,
    {
        spend(work, budget)?;
        let term: (u32, u8) = row.coefficients[at];
        row.coefficients[at] = (term.0, gf256::multiply(term.1, factor));
        at += 1;
    }
    let ghost terms = at as int;
    let mut byte: usize = 0;
    while byte < row.data.len()
        invariant
            byte <= row.data@.len(),
            terms == old(row).coefficients@.len(),
            row.data@.len() == old(row).data@.len(),
            row.coefficients@ == scaled(old(row)@, factor).coefficients,
            *work == spent(*old(work) as int, terms + byte),
            !exhausts(*old(work) as int, terms + byte, budget as int),
            forall|i: int|
                0 <= i < row.data@.len() ==> #[trigger] row.data@[i] == (if i < byte {
                    gf256::product(old(row).data@[i], factor)
                } else {
                    old(row).data@[i]
                }),
        decreases row.data@.len() - byte,
    {
        spend(work, budget)?;
        row.data[byte] = gf256::multiply(row.data[byte], factor);
        byte += 1;
    }
    assert(row@ =~= scaled(old(row)@, factor));
    Ok(())
}

/// The first position whose identifier is not below `id`.
pub(crate) fn position(coefficients: &Vec<(u32, u8)>, id: u32) -> (at: usize)
    requires
        canonical(coefficients@),
    ensures
        at == rank(coefficients@, id),
        at <= coefficients@.len(),
{
    let mut low: usize = 0;
    let mut high: usize = coefficients.len();
    proof {
        lemma_rank(coefficients@, id);
    }
    while low < high
        invariant
            canonical(coefficients@),
            low <= high <= coefficients@.len(),
            forall|i: int| 0 <= i < low ==> (#[trigger] coefficients@[i]).0 < id,
            forall|i: int| high <= i < coefficients@.len() ==> (#[trigger] coefficients@[i]).0 >= id,
        decreases high - low,
    {
        let middle: usize = low + (high - low) / 2;
        if coefficients[middle].0 < id {
            low = middle + 1;
        } else {
            high = middle;
        }
    }
    proof {
        let at = rank(coefficients@, id);
        if at < low {
            assert(coefficients@[at].0 < id);
        }
        if low < at {
            assert(coefficients@[low as int].0 < id);
        }
    }
    low
}

/// Adds `factor` times `source` to `target`.
pub fn subtract_row(target: &mut Row, source: &Row, factor: u8, work: &mut usize, budget: usize) -> (result: Result<
    (),
    FecError,
>)
    requires
        canonical(old(target)@.coefficients),
        canonical(source@.coefficients),
        factor != 0,
    ensures
        result == (if exhausts(*old(work) as int, row_cost(source@), budget as int) {
            Err::<(), FecError>(FecError::WorkBudget)
        } else {
            Ok(())
        }),
        result is Ok ==> final(target)@ == subtracted(old(target)@, source@, factor) && canonical(
            final(target)@.coefficients,
        ) && *final(work) == spent(*old(work) as int, row_cost(source@)),
{
    let ghost before = target@;
    if target.data.len() < source.data.len() {
        target.data.resize(source.data.len(), 0);
    }
    let ghost padded = target.data@;
    assert(padded.len() >= source.data@.len());
    assert(forall|i: int| 0 <= i < padded.len() ==> padded[i] == byte_at(before.data, i));
    let mut at: usize = 0;
    while at < source.coefficients.len()
        invariant
            at <= source.coefficients@.len(),
            canonical(before.coefficients),
            canonical(source@.coefficients),
            factor != 0,
            before == old(target)@,
            target.data@ == padded,
            target.coefficients@ == merged(before.coefficients, source.coefficients@, factor, at as nat),
            canonical(target.coefficients@),
            *work == spent(*old(work) as int, at as int),
            !exhausts(*old(work) as int, at as int, budget as int),
        decreases source.coefficients@.len() - at,
    {
        spend(work, budget)?;
        let term: (u32, u8) = source.coefficients[at];
        let value: u8 = gf256::multiply(term.1, factor);
        let index: usize = position(&target.coefficients, term.0);
        proof {
            gf256::lemma_product_units(term.1, factor);
            lemma_merged(before.coefficients, source.coefficients@, factor, (at + 1) as nat, 0);
        }
        if index < target.coefficients.len() && target.coefficients[index].0 == term.0 {
            let sum: u8 = target.coefficients[index].1 ^ value;
            if sum == 0 {
                target.coefficients.remove(index);
            } else {
                target.coefficients[index] = (term.0, sum);
            }
        } else {
            target.coefficients.insert(index, (term.0, value));
        }
        at += 1;
    }
    let ghost terms = at as int;
    let mut byte: usize = 0;
    while byte < source.data.len()
        invariant
            byte <= source.data@.len() <= padded.len(),
            terms == source.coefficients@.len(),
            target.data@.len() == padded.len(),
            canonical(target.coefficients@),
            target.coefficients@ == merged(before.coefficients, source.coefficients@, factor, terms as nat),
            *work == spent(*old(work) as int, terms + byte),
            !exhausts(*old(work) as int, terms + byte, budget as int),
            forall|i: int|
                0 <= i < padded.len() ==> #[trigger] target.data@[i] == (if i < byte {
                    padded[i] ^ gf256::product(source.data@[i], factor)
                } else {
                    padded[i]
                }),
        decreases source.data@.len() - byte,
    {
        spend(work, budget)?;
        target.data[byte] = target.data[byte] ^ gf256::multiply(source.data[byte], factor);
        byte += 1;
    }
    proof {
        let expected = xored(before.data, source.data@, factor);
        assert forall|i: int| 0 <= i < padded.len() implies #[trigger] target.data@[i] == expected[i] by {
            gf256::lemma_product_units(factor, 0);
            gf256::lemma_xor(padded[i], 0, 0);
        }
        assert(target.data@ =~= expected);
    }
    Ok(())
}

// ---------------------------------------------------------------------------
// Elimination
// ---------------------------------------------------------------------------

/// Among the rows `pivot..end`, the first whose leading identifier is smallest.
pub open spec fn best_pivot(rows: Seq<RowModel>, pivot: int, end: int) -> Option<int>
    decreases end - pivot,
{
    if end <= pivot {
        None
    } else {
        let prior = best_pivot(rows, pivot, end - 1);
        let row = rows[end - 1];
        if row.coefficients.len() == 0 {
            prior
        } else {
            match prior {
                None => Some(end - 1),
                Some(best) => if row.coefficients[0].0 < rows[best].coefficients[0].0 {
                    Some(end - 1)
                } else {
                    prior
                },
            }
        }
    }
}

/// The rows with two of them exchanged.
pub open spec fn swapped(rows: Seq<RowModel>, a: int, b: int) -> Seq<RowModel> {
    rows.update(a, rows[b]).update(b, rows[a])
}

/// A row whose leading coefficient was made one.
pub open spec fn normalised(row: RowModel) -> RowModel {
    scaled(row, gf256::reciprocal(row.coefficients[0].1))
}

/// A row after the symbol `id` was removed from it with the help of `source`.
pub open spec fn cleared(row: RowModel, source: RowModel, id: u32) -> RowModel {
    if mentions(row.coefficients, id) {
        subtracted(row, source, coefficient_of(row.coefficients, id))
    } else {
        row
    }
}

/// The rows after `best` became row `pivot` and its leading symbol was removed
/// from every other row.
pub open spec fn pivot_step(rows: Seq<RowModel>, pivot: int, best: int) -> Seq<RowModel> {
    let moved = swapped(rows, pivot, best);
    let source = normalised(moved[pivot]);
    Seq::new(
        rows.len(),
        |i: int|
            if i == pivot {
                source
            } else {
                cleared(moved[i], source, source.coefficients[0].0)
            },
    )
}

/// How many of the first `end` rows, `skip` left out, mention `id`.
pub open spec fn mention_count(rows: Seq<RowModel>, id: u32, skip: int, end: int) -> int
    decreases end,
{
    if end <= 0 {
        0
    } else {
        mention_count(rows, id, skip, end - 1) + (if end - 1 != skip && mentions(rows[end - 1].coefficients, id) {
            1int
        } else {
            0
        })
    }
}

/// The steps that [`pivot_step`] costs: one pass over the pivot row for itself and
/// one for each row that it is subtracted from.
pub open spec fn step_work(rows: Seq<RowModel>, pivot: int, best: int) -> int {
    let moved = swapped(rows, pivot, best);
    row_cost(moved[pivot]) * (1 + mention_count(
        moved,
        moved[pivot].coefficients[0].0,
        pivot,
        rows.len() as int,
    ))
}

/// The rows after elimination from row `pivot` on.
pub open spec fn eliminated(rows: Seq<RowModel>, pivot: int) -> Seq<RowModel>
    decreases rows.len() - pivot,
{
    if pivot >= rows.len() {
        rows
    } else {
        match best_pivot(rows, pivot, rows.len() as int) {
            None => rows,
            Some(best) => eliminated(pivot_step(rows, pivot, best), pivot + 1),
        }
    }
}

/// The steps that elimination from row `pivot` on costs.
pub open spec fn elimination_work(rows: Seq<RowModel>, pivot: int) -> int
    decreases rows.len() - pivot,
{
    if pivot >= rows.len() {
        0
    } else {
        match best_pivot(rows, pivot, rows.len() as int) {
            None => 0,
            Some(best) => step_work(rows, pivot, best) + elimination_work(
                pivot_step(rows, pivot, best),
                pivot + 1,
            ),
        }
    }
}

/// An equation without unknowns and with a right-hand side that is not zero.
pub open spec fn row_contradicts(row: RowModel) -> bool {
    row.coefficients.len() == 0 && exists|i: int| 0 <= i < row.data.len() && #[trigger] row.data[i] != 0
}

/// Some equation has no unknowns left and cannot hold.
pub open spec fn contradictory(rows: Seq<RowModel>) -> bool {
    exists|i: int| 0 <= i < rows.len() && row_contradicts(#[trigger] rows[i])
}

/// The symbols that the first `end` rows determine on their own.
pub open spec fn determined(rows: Seq<RowModel>, end: int) -> Seq<(u32, Seq<u8>)>
    decreases end,
{
    if end <= 0 {
        Seq::empty()
    } else {
        let prior = determined(rows, end - 1);
        let row = rows[end - 1];
        if row.coefficients.len() == 1 {
            prior.push((row.coefficients[0].0, row.data))
        } else {
            prior
        }
    }
}

/// The identifiers and bytes that a list of recovered symbols holds.
pub open spec fn symbols_of(list: Seq<(u32, Vec<u8>)>) -> Seq<(u32, Seq<u8>)> {
    list.map_values(|item: (u32, Vec<u8>)| (item.0, item.1@))
}

/// What elimination yields: the symbols it determines, or why there are none.
pub open spec fn reduction(rows: Seq<RowModel>, budget: int) -> Result<Seq<(u32, Seq<u8>)>, FecError> {
    if exhausts(0, elimination_work(rows, 0), budget) {
        Err(FecError::WorkBudget)
    } else if contradictory(eliminated(rows, 0)) {
        Err(FecError::ContradictoryRepair)
    } else {
        Ok(determined(eliminated(rows, 0), rows.len() as int))
    }
}

pub(crate) proof fn lemma_best_pivot(rows: Seq<RowModel>, pivot: int, end: int)
    requires
        0 <= pivot,
        end <= rows.len(),
    ensures
        match best_pivot(rows, pivot, end) {
            None => forall|i: int| pivot <= i < end ==> (#[trigger] rows[i]).coefficients.len() == 0,
            Some(best) => pivot <= best < end && rows[best].coefficients.len() > 0 && forall|i: int|
                pivot <= i < end && (#[trigger] rows[i]).coefficients.len() > 0 ==> rows[best].coefficients[0].0
                    <= rows[i].coefficients[0].0,
        },
    decreases end - pivot,
{
    if end > pivot {
        lemma_best_pivot(rows, pivot, end - 1);
    }
}

pub(crate) proof fn lemma_normalised(row: RowModel)
    requires
        canonical(row.coefficients),
        row.coefficients.len() > 0,
    ensures
        canonical(normalised(row).coefficients),
        normalised(row).coefficients.len() == row.coefficients.len(),
        normalised(row).data.len() == row.data.len(),
        normalised(row).coefficients[0] == (row.coefficients[0].0, 1u8),
        forall|i: int|
            0 <= i < row.coefficients.len() ==> (#[trigger] normalised(row).coefficients[i]).0
                == row.coefficients[i].0,
        gf256::reciprocal(row.coefficients[0].1) != 0,
{
    let factor = gf256::reciprocal(row.coefficients[0].1);
    gf256::lemma_reciprocal(row.coefficients[0].1, factor);
    assert forall|i: int| 0 <= i < row.coefficients.len() implies (#[trigger] normalised(row).coefficients[i]).1
        != 0 by {
        gf256::lemma_product_units(row.coefficients[i].1, factor);
    }
}

/// A coefficient that is not zero is one that the list mentions.
pub(crate) proof fn lemma_mentions_iff(coefficients: Seq<(u32, u8)>, id: u32)
    requires
        canonical(coefficients),
    ensures
        mentions(coefficients, id) <==> coefficient_of(coefficients, id) != 0,
{
    lemma_rank(coefficients, id);
}

/// Where every smaller identifier has coefficient zero, `id` leads the list.
pub(crate) proof fn lemma_leads(coefficients: Seq<(u32, u8)>, id: u32)
    requires
        canonical(coefficients),
        coefficient_of(coefficients, id) != 0,
        forall|other: u32| other < id ==> #[trigger] coefficient_of(coefficients, other) == 0,
    ensures
        coefficients.len() > 0,
        coefficients[0] == (id, coefficient_of(coefficients, id)),
{
    lemma_rank(coefficients, id);
    lemma_mentions(coefficients, 0);
    let first = coefficients[0].0;
    if first < id {
        assert(coefficient_of(coefficients, first) == 0);
    }
}

/// Below its leading identifier a canonical list has no coefficient.
pub(crate) proof fn lemma_below_lead(coefficients: Seq<(u32, u8)>, id: u32)
    requires
        canonical(coefficients),
        coefficients.len() == 0 || id < coefficients[0].0,
    ensures
        coefficient_of(coefficients, id) == 0,
{
    lemma_rank(coefficients, id);
}

pub(crate) proof fn lemma_cleared(row: RowModel, source: RowModel, id: u32, other: u32)
    requires
        canonical(row.coefficients),
        canonical(source.coefficients),
        source.coefficients.len() > 0,
        source.coefficients[0] == (id, 1u8),
    ensures
        canonical(cleared(row, source, id).coefficients),
        !mentions(cleared(row, source, id).coefficients, id),
        coefficient_of(cleared(row, source, id).coefficients, other) == coefficient_of(row.coefficients, other)
            ^ gf256::product(coefficient_of(source.coefficients, other), coefficient_of(row.coefficients, id)),
{
    let factor = coefficient_of(row.coefficients, id);
    lemma_mentions_iff(row.coefficients, id);
    let full = source.coefficients;
    assert(full.take(full.len() as int) =~= full);
    gf256::lemma_product_units(coefficient_of(full, other), 0);
    gf256::lemma_product_units(factor, 0);
    gf256::lemma_xor(coefficient_of(row.coefficients, other), 0, 0);
    gf256::lemma_xor(factor, factor, 0);
    if mentions(row.coefficients, id) {
        lemma_merged(row.coefficients, full, factor, full.len(), other);
        lemma_merged(row.coefficients, full, factor, full.len(), id);
        lemma_mentions(full, 0);
        lemma_mentions_iff(merged(row.coefficients, full, factor, full.len()), id);
    }
}

pub(crate) proof fn lemma_step_canonical(rows: Seq<RowModel>, pivot: int, best: int)
    requires
        all_canonical(rows),
        0 <= pivot <= best < rows.len(),
        rows[best].coefficients.len() > 0,
    ensures
        all_canonical(pivot_step(rows, pivot, best)),
        pivot_step(rows, pivot, best).len() == rows.len(),
{
    let moved = swapped(rows, pivot, best);
    lemma_normalised(moved[pivot]);
    let source = normalised(moved[pivot]);
    assert forall|i: int| 0 <= i < rows.len() implies canonical(
        (#[trigger] pivot_step(rows, pivot, best)[i]).coefficients,
    ) by {
        if i != pivot {
            lemma_cleared(moved[i], source, source.coefficients[0].0, 0);
        }
    }
}

/// A copy of a row, kept while the other rows change, in vectors of bounded memory.
fn clone_row(row: &Row, max_symbol_bytes: usize) -> (result: Result<Row, FecError>)
    ensures
        match result {
            Ok(copy) => copy@ == row@,
            Err(error) => error == FecError::MemoryCapacity && (room::room_refused::<(u32, u8)>(
                row@.coefficients.len() as usize,
            ) || room::room_refused::<u8>(max_symbol_bytes)),
        },
{
    let mut coefficients: Vec<(u32, u8)> = bounded_vec::<(u32, u8)>(row.coefficients.len())?;
    extend_terms(&mut coefficients, &row.coefficients);
    let mut data: Vec<u8> = bounded_vec::<u8>(max_symbol_bytes)?;
    extend_bytes(&mut data, row.data.as_slice());
    assert(data@ =~= row.data@);
    Ok(Row { coefficients, data })
}

/// Whether the allocator refused room for what an elimination of `row_count` rows works on:
/// the terms of a row, the data of a row, or the list of what it recovers.
pub open spec fn elimination_refused(row_count: int, max_symbol_bytes: int) -> bool {
    ||| exists|terms: usize| #[trigger] room::room_refused::<(u32, u8)>(terms)
    ||| room::room_refused::<u8>(max_symbol_bytes as usize)
    ||| room::room_refused::<(u32, Vec<u8>)>(row_count as usize)
}

fn swap_rows(rows: &mut Vec<Row>, a: usize, b: usize)
    requires
        a < old(rows)@.len(),
        b < old(rows)@.len(),
    ensures
        final(rows)@.len() == old(rows)@.len(),
        models(final(rows)@) == swapped(models(old(rows)@), a as int, b as int),
{
    if a == b {
        assert(models(rows@) =~= swapped(models(old(rows)@), a as int, b as int));
        return;
    }
    let mut held: Row = Row { coefficients: Vec::new(), data: Vec::new() };
    core::mem::swap(&mut held, &mut rows[a]);
    core::mem::swap(&mut held, &mut rows[b]);
    core::mem::swap(&mut held, &mut rows[a]);
    assert(models(rows@) =~= swapped(models(old(rows)@), a as int, b as int));
}

fn find_pivot(rows: &Vec<Row>, pivot: usize) -> (best: Option<usize>)
    requires
        pivot <= rows@.len(),
    ensures
        match best {
            None => best_pivot(models(rows@), pivot as int, rows@.len() as int) is None,
            Some(index) => best_pivot(models(rows@), pivot as int, rows@.len() as int) == Some(index as int) && pivot
                <= index < rows@.len() && rows@[index as int].coefficients@.len() > 0,
        },
{
    let mut best: Option<usize> = None;
    let mut at: usize = pivot;
    while at < rows.len()
        invariant
            pivot <= at <= rows@.len(),
            match best {
                None => best_pivot(models(rows@), pivot as int, at as int) is None,
                Some(index) => best_pivot(models(rows@), pivot as int, at as int) == Some(index as int) && pivot
                    <= index < at && rows@[index as int].coefficients@.len() > 0,
            },
        decreases rows@.len() - at,
    {
        if rows[at].coefficients.len() > 0 {
            match best {
                None => {
                    best = Some(at);
                },
                Some(index) => {
                    if rows[at].coefficients[0].0 < rows[index].coefficients[0].0 {
                        best = Some(at);
                    }
                },
            }
        }
        at += 1;
    }
    best
}

/// Brings the rows to reduced form and returns the symbols that they determine, in
/// increasing order of their identifiers.
///
/// On an error the rows are left part way through the elimination. The allocator may refuse
/// the room that it works in, at any step.
pub fn reduce(rows: &mut Vec<Row>, max_symbol_bytes: usize, work_budget: usize) -> (result: Result<
    Vec<(u32, Vec<u8>)>,
    FecError,
>)
    requires
        all_canonical(models(old(rows)@)),
    ensures
        match result {
            Ok(recovered) => reduction(models(old(rows)@), work_budget as int) == Ok::<
                Seq<(u32, Seq<u8>)>,
                FecError,
            >(symbols_of(recovered@)) && models(final(rows)@) == eliminated(models(old(rows)@), 0),
            Err(error) => {
                ||| reduction(models(old(rows)@), work_budget as int) == Err::<Seq<(u32, Seq<u8>)>, FecError>(error)
                ||| error == FecError::MemoryCapacity && elimination_refused(
                    old(rows)@.len() as int,
                    max_symbol_bytes as int,
                )
            },
        },
{
    let ghost before = models(rows@);
    let mut work: usize = 0;
    let mut pivot: usize = 0;
    let ghost mut done: int = 0;
    loop
        invariant
            before == models(old(rows)@),
            before.len() == rows@.len(),
            pivot <= rows@.len(),
            all_canonical(models(rows@)),
            eliminated(before, 0) == eliminated(models(rows@), pivot as int),
            elimination_work(before, 0) == done + elimination_work(models(rows@), pivot as int),
            done >= 0,
            work == spent(0, done),
            !exhausts(0, done, work_budget as int),
        ensures
            models(rows@) == eliminated(before, 0),
            !exhausts(0, elimination_work(before, 0), work_budget as int),
        decreases rows@.len() - pivot,
    {
        if pivot >= rows.len() {
            break;
        }
        let found: Option<usize> = find_pivot(rows, pivot);
        let best: usize = match found {
            None => {
                break;
            },
            Some(best) => best,
        };
        let ghost current = models(rows@);
        swap_rows(rows, pivot, best);
        let ghost moved = models(rows@);
        assert(moved[pivot as int] == current[best as int]);
        assert(rows@[pivot as int]@ == moved[pivot as int]);
        let lead: (u32, u8) = rows[pivot].coefficients[0];
        assert(lead.1 != 0);
        let factor: u8 = gf256::inverse(lead.1);
        proof {
            lemma_normalised(moved[pivot as int]);
            lemma_work_left(current, pivot as int);
            lemma_mention_count(moved, lead.0, pivot as int, rows@.len() as int);
            lemma_step_canonical(current, pivot as int, best as int);
        }
        let ghost step = step_work(current, pivot as int, best as int);
        let ghost cost = row_cost(moved[pivot as int]);
        assert(cost * (1 + 0) == cost) by (nonlinear_arith);
        let scaling: Result<(), FecError> = scale_row(&mut rows[pivot], factor, &mut work, work_budget);
        if let Err(error) = scaling {
            proof {
                let count = mention_count(moved, lead.0, pivot as int, rows@.len() as int);
                assert(cost * (1 + count) >= cost) by (nonlinear_arith)
                    requires cost >= 0, count >= 0;
            }
            return Err(error);
        }
        let ghost source_model = normalised(moved[pivot as int]);
        assert(rows@[pivot as int]@ == source_model);
        let source: Row = clone_row(&rows[pivot], max_symbol_bytes)?;
        let mut at: usize = 0;
        while at < rows.len()
            invariant
                at <= rows@.len(),
                pivot < rows@.len(),
                rows@.len() == moved.len(),
                all_canonical(moved),
                source@ == source_model,
                canonical(source_model.coefficients),
                source_model.coefficients.len() > 0,
                source_model.coefficients[0] == (lead.0, 1u8),
                row_cost(source_model) == cost,
                cost >= 0,
                done >= 0,
                step == cost * (1 + mention_count(moved, lead.0, pivot as int, moved.len() as int)),
                elimination_work(before, 0) >= done + step,
                before == models(old(rows)@),
                work == spent(0, done + cost * (1 + mention_count(moved, lead.0, pivot as int, at as int))),
                !exhausts(
                    0,
                    done + cost * (1 + mention_count(moved, lead.0, pivot as int, at as int)),
                    work_budget as int,
                ),
                forall|i: int|
                    0 <= i < rows@.len() ==> #[trigger] rows@[i]@ == (if i == pivot {
                        source_model
                    } else if i < at {
                        cleared(moved[i], source_model, lead.0)
                    } else {
                        moved[i]
                    }),
            decreases rows@.len() - at,
        {
            let ghost counted = mention_count(moved, lead.0, pivot as int, at as int);
            if at != pivot {
                assert(rows@[at as int]@ == moved[at as int]);
                let index: usize = position(&rows[at].coefficients, lead.0);
                if index < rows[at].coefficients.len() && rows[at].coefficients[index].0 == lead.0 {
                    let term: u8 = rows[at].coefficients[index].1;
                    assert(term == coefficient_of(moved[at as int].coefficients, lead.0));
                    let cleared_row: Result<(), FecError> = subtract_row(
                        &mut rows[at],
                        &source,
                        term,
                        &mut work,
                        work_budget,
                    );
                    proof {
                        lemma_mention_count(moved, lead.0, pivot as int, moved.len() as int);
                        lemma_mention_count_grows(moved, lead.0, pivot as int, at + 1, moved.len() as int);
                        let all = mention_count(moved, lead.0, pivot as int, moved.len() as int);
                        assert(cost * (1 + (counted + 1)) == cost * (1 + counted) + cost) by (nonlinear_arith);
                        assert(cost * (1 + (counted + 1)) <= cost * (1 + all)) by (nonlinear_arith)
                            requires cost >= 0, counted + 1 <= all;
                    }
                    if let Err(error) = cleared_row {
                        return Err(error);
                    }
                }
            }
            at += 1;
        }
        proof {
            assert(models(rows@) =~= pivot_step(current, pivot as int, best as int));
            done = done + step;
        }
        pivot += 1;
    }
    let mut recovered: Vec<(u32, Vec<u8>)> = bounded_vec::<(u32, Vec<u8>)>(rows.len())?;
    let mut at: usize = 0;
    let ghost after = models(rows@);
    while at < rows.len()
        invariant
            at <= rows@.len(),
            rows@.len() == before.len(),
            after == models(rows@),
            after == eliminated(before, 0),
            before == models(old(rows)@),
            !exhausts(0, elimination_work(before, 0), work_budget as int),
            forall|i: int| 0 <= i < at ==> !row_contradicts(#[trigger] after[i]),
            symbols_of(recovered@) == determined(after, at as int),
        decreases rows@.len() - at,
    {
        assert(after[at as int] == rows@[at as int]@);
        if rows[at].coefficients.len() == 0 {
            if !all_zero(rows[at].data.as_slice()) {
                assert(exists|i: int| 0 <= i < after[at as int].data.len() && #[trigger] after[at as int].data[i] != 0);
                assert(contradictory(after));
                return Err(FecError::ContradictoryRepair);
            }
        } else if rows[at].coefficients.len() == 1 {
            let mut data: Vec<u8> = bounded_vec::<u8>(max_symbol_bytes)?;
            extend_bytes(&mut data, rows[at].data.as_slice());
            assert(data@ =~= after[at as int].data);
            let ghost listed = symbols_of(recovered@);
            recovered.push((rows[at].coefficients[0].0, data));
            assert(symbols_of(recovered@) =~= listed.push((after[at as int].coefficients[0].0, after[at as int].data)));
        }
        at += 1;
    }
    assert(!contradictory(after));
    Ok(recovered)
}

/// Whether every byte is zero.
pub fn all_zero(bytes: &[u8]) -> (zero: bool)
    ensures
        zero == (forall|i: int| 0 <= i < bytes@.len() ==> #[trigger] bytes@[i] == 0),
{
    let mut at: usize = 0;
    while at < bytes.len()
        invariant
            at <= bytes@.len(),
            forall|i: int| 0 <= i < at ==> #[trigger] bytes@[i] == 0,
        decreases bytes@.len() - at,
    {
        if bytes[at] != 0 {
            return false;
        }
        at += 1;
    }
    true
}

pub(crate) proof fn lemma_mention_count(rows: Seq<RowModel>, id: u32, skip: int, end: int)
    ensures
        mention_count(rows, id, skip, end) >= 0,
    decreases end,
{
    if end > 0 {
        lemma_mention_count(rows, id, skip, end - 1);
    }
}

pub(crate) proof fn lemma_mention_count_grows(rows: Seq<RowModel>, id: u32, skip: int, part: int, end: int)
    requires
        part <= end,
    ensures
        mention_count(rows, id, skip, part) <= mention_count(rows, id, skip, end),
    decreases end - part,
{
    if part < end {
        lemma_mention_count_grows(rows, id, skip, part, end - 1);
    }
}

/// Elimination never costs a negative amount, at this pivot or a later one.
pub(crate) proof fn lemma_work_left(rows: Seq<RowModel>, pivot: int)
    requires
        0 <= pivot,
    ensures
        elimination_work(rows, pivot) >= 0,
        pivot < rows.len() ==> (best_pivot(rows, pivot, rows.len() as int) matches Some(best) ==> step_work(
            rows,
            pivot,
            best,
        ) <= elimination_work(rows, pivot) && step_work(rows, pivot, best) >= 0),
    decreases rows.len() - pivot,
{
    if pivot < rows.len() {
        match best_pivot(rows, pivot, rows.len() as int) {
            None => {},
            Some(best) => {
                lemma_work_left(pivot_step(rows, pivot, best), pivot + 1);
                let moved = swapped(rows, pivot, best);
                let count = mention_count(moved, moved[pivot].coefficients[0].0, pivot, rows.len() as int);
                lemma_mention_count(moved, moved[pivot].coefficients[0].0, pivot, rows.len() as int);
                let cost = row_cost(moved[pivot]);
                assert(cost * (1 + count) >= 0) by (nonlinear_arith)
                    requires cost >= 0, count >= 0;
            },
        }
    }
}

/// Elimination keeps the number of rows and their canonical form.
pub(crate) proof fn lemma_eliminated_canonical(rows: Seq<RowModel>, pivot: int)
    requires
        all_canonical(rows),
        0 <= pivot,
    ensures
        all_canonical(eliminated(rows, pivot)),
        eliminated(rows, pivot).len() == rows.len(),
    decreases rows.len() - pivot,
{
    if pivot < rows.len() {
        lemma_best_pivot(rows, pivot, rows.len() as int);
        match best_pivot(rows, pivot, rows.len() as int) {
            None => {},
            Some(best) => {
                lemma_step_canonical(rows, pivot, best);
                lemma_eliminated_canonical(pivot_step(rows, pivot, best), pivot + 1);
            },
        }
    }
}

}
