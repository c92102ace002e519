//! The field that repairs are computed in, and what its operations do to equations.
use crate::fec::matrix;
use crate::fec::matrix::{FecError, Row};
use crate::fec::symbol;
use crate::gf256;
use crate::storage;
use bytes::Bytes;
use vstd::prelude::*;

verus! {

/// Multiplication is that of a field: zero absorbs, one is neutral, the order and the grouping
/// of factors do not matter, it distributes over exclusive or, and each value but zero has an
/// inverse.
pub proof fn law_multiplication_is_that_of_a_field(
    left: u8,
    right: u8,
    factor: u8,
    forward: u8,
    backward: u8,
    grouped: u8,
    other: u8,
    by_zero: u8,
    by_one: u8,
    inverse: u8,
    back: u8,
)
    requires
        call_ensures(gf256::multiply, (left, right), forward),
        call_ensures(gf256::multiply, (right, left), backward),
        call_ensures(gf256::multiply, (forward, factor), grouped),
        call_ensures(gf256::multiply, (right, factor), other),
        call_ensures(gf256::multiply, (left, 0u8), by_zero),
        call_ensures(gf256::multiply, (left, 1u8), by_one),
        left != 0,
        call_ensures(gf256::inverse, (left,), inverse),
        call_ensures(gf256::multiply, (inverse, left), back),
    ensures
        forward == backward,
        by_zero == 0,
        by_one == left,
        grouped == gf256::product(left, other),
        gf256::product(left ^ right, factor) == gf256::product(left, factor) ^ gf256::product(right, factor),
        back == 1,
        forward == 0 ==> right == 0,
{
    gf256::lemma_product_commutes(left, right);
    gf256::lemma_product_units(left, right);
    gf256::lemma_product_associates(left, right, factor);
    gf256::lemma_product_distributes(left, right, factor);
    gf256::lemma_product_commutes(inverse, left);
}

/// Multiplication by two shifts a value by one bit, and takes a bit that falls out back in as
/// 0x1d.
pub proof fn law_doubling_reduces_by_the_polynomial(value: u8, doubled: u8)
    requires
        call_ensures(gf256::multiply, (value, 2u8), doubled),
    ensures
        value < 128 ==> doubled == 2 * value,
        value >= 128 ==> doubled == ((2 * value - 256) as u8) ^ 0x1d,
{
    lemma_doubled(value);
}

proof fn lemma_doubled(value: u8)
    by (bit_vector)
    ensures
        gf256::product(value, 2) == if value < 128 {
            value << 1
        } else {
            (value << 1) ^ 0x1d
        },
        value < 128 ==> value << 1 == 2 * value,
        value >= 128 ==> value << 1 == 2 * value - 256,
{
}

/// Each byte of a repair symbol is the sum of the bytes at its place, each times the
/// coefficient of its source; the coefficients are never zero. With one source it is that
/// source times its coefficient, so that the source can be had back.
pub proof fn law_repair_of_one_source_gives_it_back(
    first_symbol_id: u32,
    repair_id: u32,
    seed: u32,
    sources: &[Bytes],
    coded: Vec<u8>,
    value: u8,
    inverse: u8,
    at: int,
    back: u8,
)
    requires
        sources@.len() == 1,
        call_ensures(
            symbol::repair_symbol,
            (first_symbol_id, repair_id, seed, sources),
            Ok::<Vec<u8>, FecError>(coded),
        ),
        call_ensures(symbol::coefficient, (seed, repair_id, first_symbol_id), value),
        call_ensures(gf256::inverse, (value,), inverse),
        0 <= at < coded@.len(),
        call_ensures(gf256::multiply, (coded@[at], inverse), back),
    ensures
        value != 0,
        coded@.len() == storage::contents(sources@[0]).len(),
        back == storage::contents(sources@[0])[at],
{
    let list = symbol::contents_of(sources@);
    assert(list[0] == storage::contents(sources@[0]));
    reveal_with_fuel(symbol::longest, 2);
    reveal_with_fuel(symbol::repair_byte, 2);
    let byte = list[0][at];
    gf256::lemma_xor(gf256::product(byte, value), 0, 0);
    assert(coded@[at] == gf256::product(byte, value));
    gf256::lemma_product_associates(byte, value, inverse);
    gf256::lemma_product_units(byte, 1);
}

/// A row that is scaled has every term and every byte multiplied; it takes one step of work for
/// each of them, and is refused exactly where they exceed the budget.
pub proof fn law_scaling_multiplies_everything(
    row: &mut Row,
    factor: u8,
    work: &mut usize,
    budget: usize,
    result: Result<(), FecError>,
    term: int,
    byte: int,
)
    requires
        *old(work) + old(row)@.coefficients.len() + old(row)@.data.len() <= usize::MAX,
        call_ensures(matrix::scale_row, (row, factor, work, budget), result),
        0 <= term < old(row)@.coefficients.len(),
        0 <= byte < old(row)@.data.len(),
    ensures
        result is Ok <==> *old(work) + old(row)@.coefficients.len() + old(row)@.data.len() <= budget,
        result is Ok ==> {
            &&& final(row)@.coefficients.len() == old(row)@.coefficients.len()
            &&& final(row)@.coefficients[term].0 == old(row)@.coefficients[term].0
            &&& final(row)@.coefficients[term].1 == gf256::product(old(row)@.coefficients[term].1, factor)
            &&& final(row)@.data.len() == old(row)@.data.len()
            &&& final(row)@.data[byte] == gf256::product(old(row)@.data[byte], factor)
            &&& *final(work) == *old(work) + old(row)@.coefficients.len() + old(row)@.data.len()
        },
        result matches Err(error) ==> error == FecError::WorkBudget,
{
}

/// One step of work is counted, and refused where the budget is used up.
pub proof fn law_each_step_is_counted(work: &mut usize, budget: usize, result: Result<(), FecError>)
    requires
        *old(work) < usize::MAX,
        call_ensures(matrix::spend, (work, budget), result),
    ensures
        *final(work) == *old(work) + 1,
        result is Ok <==> *old(work) < budget,
        result matches Err(error) ==> error == FecError::WorkBudget,
{
}

/// Subtracting a multiple of one row from another changes each coefficient and each byte by
/// that multiple, so that a coefficient can be made to vanish; it takes the work of the row
/// that is subtracted.
pub proof fn law_subtracting_changes_by_the_multiple(
    target: &mut Row,
    source: &Row,
    factor: u8,
    work: &mut usize,
    budget: usize,
    result: Result<(), FecError>,
    id: u32,
    byte: int,
)
    requires
        matrix::canonical(old(target)@.coefficients),
        matrix::canonical(source@.coefficients),
        factor != 0,
        *old(work) + source@.coefficients.len() + source@.data.len() <= usize::MAX,
        call_ensures(matrix::subtract_row, (target, source, factor, work, budget), result),
    ensures
        result is Ok <==> source@.coefficients.len() + source@.data.len() == 0
            || *old(work) + source@.coefficients.len()
            + source@.data.len() <= budget,
        result is Ok ==> {
            &&& matrix::coefficient_of(final(target)@.coefficients, id) == matrix::coefficient_of(
                old(target)@.coefficients,
                id,
            ) ^ gf256::product(matrix::coefficient_of(source@.coefficients, id), factor)
            &&& matrix::byte_at(final(target)@.data, byte) == matrix::byte_at(old(target)@.data, byte) ^ gf256::product(
                matrix::byte_at(source@.data, byte),
                factor,
            )
            &&& matrix::canonical(final(target)@.coefficients)
        },
{
    matrix::lemma_merged(
        old(target)@.coefficients,
        source@.coefficients,
        factor,
        source@.coefficients.len(),
        id,
    );
    assert(source@.coefficients.take(source@.coefficients.len() as int) =~= source@.coefficients);
    if result is Ok {
        gf256::lemma_product_units(factor, 0);
        gf256::lemma_xor(0, 0, 0);
    }
}

} // verus!
