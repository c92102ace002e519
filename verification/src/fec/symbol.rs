//! Repair symbols: pseudo-random combinations of a span of source symbols.
use crate::fec::matrix;
use crate::fec::matrix::FecError;
use crate::gf256;
use crate::storage;
use bytes::Bytes;
use vstd::prelude::*;

verus! {

/// The largest number of source symbols that one repair symbol covers.
pub const MAX_REPAIR_SPAN: u16 = 256;

/// A mix of the three numbers that name a coefficient.
pub open spec fn mixed(seed: u32, repair_id: u32, symbol_id: u32) -> u32 {
    let a = seed ^ repair_id.wrapping_mul(0x9e37_79b9) ^ symbol_id.wrapping_mul(0x85eb_ca6b);
    let b = (a ^ (a >> 16)).wrapping_mul(0x7feb_352d);
    let c = (b ^ (b >> 15)).wrapping_mul(0x846c_a68b);
    c ^ (c >> 16)
}

/// The coefficient of a symbol in a repair symbol: the low byte of the mix, never zero.
#[verifier::opaque]
pub open spec fn coefficient_value(seed: u32, repair_id: u32, symbol_id: u32) -> u8 {
    let low = mixed(seed, repair_id, symbol_id) as u8;
    if low == 0 {
        1
    } else {
        low
    }
}

/// The coefficient of a symbol in a repair symbol.
pub fn coefficient(seed: u32, repair_id: u32, symbol_id: u32) -> (value: u8)
    ensures
        value == coefficient_value(seed, repair_id, symbol_id),
        value != 0,
{
    reveal(coefficient_value);
    let a: u32 = seed ^ repair_id.wrapping_mul(0x9e37_79b9) ^ symbol_id.wrapping_mul(0x85eb_ca6b);
    let b: u32 = (a ^ (a >> 16)).wrapping_mul(0x7feb_352d);
    let c: u32 = (b ^ (b >> 15)).wrapping_mul(0x846c_a68b);
    let low: u8 = #[verifier::truncate] ((c ^ (c >> 16)) as u8);
    if low == 0 {
        1
    } else {
        low
    }
}

/// No coefficient is zero.
pub proof fn lemma_coefficient_value(seed: u32, repair_id: u32, symbol_id: u32)
    ensures
        coefficient_value(seed, repair_id, symbol_id) != 0,
{
    reveal(coefficient_value);
}

/// The identifier `ordinal` places after `first`, wrapping.
pub open spec fn symbol_at(first: u32, ordinal: int) -> u32 {
    if first + ordinal > u32::MAX {
        (first + ordinal - 0x1_0000_0000) as u32
    } else {
        (first + ordinal) as u32
    }
}

/// What the source at `ordinal` adds to byte `at` of a repair symbol.
pub open spec fn share(source: Seq<u8>, first: u32, ordinal: int, repair_id: u32, seed: u32, at: int) -> u8 {
    gf256::product(matrix::byte_at(source, at), coefficient_value(seed, repair_id, symbol_at(first, ordinal)))
}

/// Byte `at` of the repair symbol over the first `count` sources.
pub open spec fn repair_byte(
    sources: Seq<Seq<u8>>,
    first: u32,
    count: int,
    repair_id: u32,
    seed: u32,
    at: int,
) -> u8
    decreases count,
{
    if count <= 0 {
        0
    } else {
        repair_byte(sources, first, count - 1, repair_id, seed, at) ^ share(
            sources[count - 1],
            first,
            count - 1,
            repair_id,
            seed,
            at,
        )
    }
}

/// The length of the longest of the first `count` sources.
pub open spec fn longest(sources: Seq<Seq<u8>>, count: int) -> nat
    decreases count,
{
    if count <= 0 {
        0
    } else {
        let prior = longest(sources, count - 1);
        if sources[count - 1].len() > prior {
            sources[count - 1].len()
        } else {
            prior
        }
    }
}

/// The bytes of each buffer.
pub open spec fn contents_of(sources: Seq<Bytes>) -> Seq<Seq<u8>> {
    sources.map_values(|source: Bytes| storage::contents(source))
}

/// The repair symbol over `sources`, as long as the longest of them.
pub open spec fn repair_of(sources: Seq<Seq<u8>>, first: u32, repair_id: u32, seed: u32) -> Seq<u8> {
    Seq::new(
        longest(sources, sources.len() as int),
        |at: int| repair_byte(sources, first, sources.len() as int, repair_id, seed, at),
    )
}

/// A source adds nothing past its end.
pub(crate) proof fn lemma_repair_byte_past_end(
    sources: Seq<Seq<u8>>,
    first: u32,
    count: int,
    repair_id: u32,
    seed: u32,
    at: int,
)
    requires
        at >= longest(sources, count),
    ensures
        repair_byte(sources, first, count, repair_id, seed, at) == 0,
    decreases count,
{
    if count > 0 {
        lemma_repair_byte_past_end(sources, first, count - 1, repair_id, seed, at);
        gf256::lemma_product_units(coefficient_value(seed, repair_id, symbol_at(first, count - 1)), 0);
        gf256::lemma_xor(0, 0, 0);
    }
}

proof fn lemma_longest(sources: Seq<Seq<u8>>, count: int, which: int)
    requires
        0 <= which < count,
    ensures
        sources[which].len() <= longest(sources, count),
    decreases count,
{
    if which < count - 1 {
        lemma_longest(sources, count - 1, which);
    }
}

/// Combines a span of source symbols into one repair symbol.
pub fn repair_symbol(first_symbol_id: u32, repair_id: u32, seed: u32, sources: &[Bytes]) -> (result: Result<
    Vec<u8>,
    FecError,
>)
    ensures
        ({
            let list = contents_of(sources@);
            let size = longest(list, list.len() as int);
            match result {
                Ok(output) => 1 <= list.len() <= MAX_REPAIR_SPAN && 1 <= size <= u16::MAX && output@ == repair_of(
                    list,
                    first_symbol_id,
                    repair_id,
                    seed,
                ),
                Err(FecError::InvalidSpan) => list.len() == 0 || list.len() > MAX_REPAIR_SPAN,
                Err(FecError::InvalidSymbolSize) => 1 <= list.len() <= MAX_REPAIR_SPAN && (size == 0 || size
                    > u16::MAX),
                Err(_) => false,
            }
        }),
{
    let ghost list = contents_of(sources@);
    if sources.len() == 0 || sources.len() > MAX_REPAIR_SPAN as usize {
        return Err(FecError::InvalidSpan);
    }
    let mut size: usize = 0;
    let mut at: usize = 0;
    while at < sources.len()
        invariant
            at <= sources@.len(),
            list == contents_of(sources@),
            size == longest(list, at as int),
        decreases sources@.len() - at,
    {
        let length: usize = storage::as_slice(&sources[at]).len();
        if length > size {
            size = length;
        }
        at += 1;
    }
    if size == 0 || size > u16::MAX as usize {
        return Err(FecError::InvalidSymbolSize);
    }
    let mut output: Vec<u8> = vec![0; size];
    let mut ordinal: usize = 0;
    while ordinal < sources.len()
        invariant
            ordinal <= sources@.len() <= MAX_REPAIR_SPAN,
            list == contents_of(sources@),
            size == longest(list, list.len() as int),
            output@.len() == size,
            forall|k: int|
                0 <= k < size ==> #[trigger] output@[k] == repair_byte(
                    list,
                    first_symbol_id,
                    ordinal as int,
                    repair_id,
                    seed,
                    k,
                ),
        decreases sources@.len() - ordinal,
    {
        let id: u32 = first_symbol_id.wrapping_add(ordinal as u32);
        assert(id == symbol_at(first_symbol_id, ordinal as int));
        let factor: u8 = coefficient(seed, repair_id, id);
        let source: &[u8] = storage::as_slice(&sources[ordinal]);
        proof {
            lemma_longest(list, list.len() as int, ordinal as int);
        }
        assert(source@ == list[ordinal as int]);
        let mut byte: usize = 0;
        while byte < source.len()
            invariant
                byte <= source@.len() <= size,
                ordinal < sources@.len(),
                source@ == list[ordinal as int],
                factor == coefficient_value(seed, repair_id, symbol_at(first_symbol_id, ordinal as int)),
                output@.len() == size,
                forall|k: int|
                    0 <= k < size ==> #[trigger] output@[k] == repair_byte(
                        list,
                        first_symbol_id,
                        if k < byte {
                            ordinal + 1
                        } else {
                            ordinal as int
                        },
                        repair_id,
                        seed,
                        k,
                    ),
            decreases source@.len() - byte,
        {
            output[byte] = output[byte] ^ gf256::multiply(source[byte], factor);
            byte += 1;
        }
        assert forall|k: int| 0 <= k < size implies #[trigger] output@[k] == repair_byte(
            list,
            first_symbol_id,
            ordinal + 1,
            repair_id,
            seed,
            k,
        ) by {
            if k >= source@.len() {
                gf256::lemma_product_units(factor, 0);
                gf256::lemma_xor(output@[k], 0, 0);
            }
        }
        ordinal += 1;
    }
    assert(output@ =~= repair_of(list, first_symbol_id, repair_id, seed));
    Ok(output)
}

}
