//! The Internet checksum: the complement of the ones' complement sum of 16-bit words.
use crate::endian;
use vstd::prelude::*;

verus! {

/// The sum of the 16-bit words of `bytes`; an odd last byte is the high half of a word.
pub open spec fn word_sum(bytes: Seq<u8>) -> int
    decreases bytes.len(),
{
    if bytes.len() == 0 {
        0
    } else {
        word_sum(bytes.drop_last()) + bytes.last() * (if (bytes.len() - 1) % 2 == 0 {
            256int
        } else {
            1int
        })
    }
}

/// A sum with its carries added back in until it fits in 16 bits: the sum modulo 65535,
/// where zero stands for nothing but a zero sum.
pub open spec fn folded(sum: int) -> int {
    if sum == 0 {
        0
    } else {
        1 + (sum - 1) % 65535
    }
}

/// The checksum that goes with a sum of words.
pub open spec fn complement(sum: int) -> u16 {
    (65535 - folded(sum)) as u16
}

/// The checksum over `bytes`.
pub open spec fn checksum_of(bytes: Seq<u8>) -> u16 {
    complement(word_sum(bytes))
}

/// A sum of words is not negative, and no word adds more than 65535.
pub proof fn lemma_word_sum_bounds(bytes: Seq<u8>)
    ensures
        0 <= word_sum(bytes),
        2 * word_sum(bytes) <= 65535 * bytes.len() + (if bytes.len() % 2 == 0 {
            0int
        } else {
            65025int
        }),
    decreases bytes.len(),
{
    if bytes.len() > 0 {
        lemma_word_sum_bounds(bytes.drop_last());
    }
}

/// Word sums add up where the parts meet on a word boundary.
pub proof fn lemma_word_sum_concat(left: Seq<u8>, right: Seq<u8>)
    requires
        left.len() % 2 == 0,
    ensures
        word_sum(left + right) == word_sum(left) + word_sum(right),
    decreases right.len(),
{
    if right.len() == 0 {
        assert(left + right =~= left);
    } else {
        lemma_word_sum_concat(left, right.drop_last());
        assert((left + right).drop_last() =~= left + right.drop_last());
        assert((left + right).last() == right.last());
        assert(((left + right).len() - 1) % 2 == (right.len() - 1) % 2);
    }
}

/// A byte counts in a word sum by its place: the high half of a word, or the low one.
pub open spec fn place_value(at: int) -> int {
    if at % 2 == 0 {
        256
    } else {
        1
    }
}

/// A changed byte moves the word sum by the change at its place.
pub proof fn lemma_word_sum_update(bytes: Seq<u8>, at: int, byte: u8)
    requires
        0 <= at < bytes.len(),
    ensures
        word_sum(bytes.update(at, byte)) == word_sum(bytes) + (byte - bytes[at]) * place_value(at),
    decreases bytes.len(),
{
    let changed = bytes.update(at, byte);
    if at == bytes.len() - 1 {
        assert(changed.drop_last() =~= bytes.drop_last());
    } else {
        assert(changed.drop_last() =~= bytes.drop_last().update(at, byte));
        lemma_word_sum_update(bytes.drop_last(), at, byte);
    }
}

/// Of two sums that differ by one changed byte, at most one has the checksum zero.
pub proof fn lemma_changed_byte_shows(sum: int, at: int, before: u8, after: u8)
    requires
        sum >= 0,
        sum + (after - before) * place_value(at) >= 0,
        complement(sum) == 0,
        before != after,
    ensures
        complement(sum + (after - before) * place_value(at)) != 0,
{
    let change = (after - before) * place_value(at);
    let next = sum + change;
    assert(-65535 < change < 65535 && change != 0);
    assert(folded(sum) == 65535);
    let q = (sum - 1) / 65535;
    assert(sum == 65535 * q + 65535);
    if complement(next) == 0 {
        assert(folded(next) == 65535);
        let r = (next - 1) / 65535;
        assert(next == 65535 * r + 65535);
        assert(change == 65535 * (r - q));
        assert(false);
    }
}

/// The word sum of one number is the number.
pub proof fn lemma_word_sum_be16(value: u16)
    ensures
        word_sum(endian::be16(value)) == value,
{
    reveal_with_fuel(word_sum, 3);
    let bytes = endian::be16(value);
    assert(bytes.drop_last().drop_last().len() == 0);
    assert(bytes.drop_last().last() == bytes[0]);
}

/// Where a sum is completed by its own checksum, the checksum over all of it is zero.
pub proof fn lemma_checksum_completes(sum: int)
    requires
        sum >= 0,
    ensures
        complement(sum + complement(sum)) == 0,
        sum > 0 ==> complement(sum) < 65535,
{
    let c = complement(sum) as int;
    assert(0 <= folded(sum) <= 65535);
    assert(c == 65535 - folded(sum));
    if sum == 0 {
        assert(folded(65535) == 65535);
    } else {
        let q = (sum - 1) / 65535;
        let r = (sum - 1) % 65535;
        assert(sum - 1 == 65535 * q + r);
        assert(sum + c == 65535 * q + 65535);
        assert((sum + c - 1) % 65535 == 65534) by {
            assert(sum + c - 1 == 65535 * q + 65534);
        }
    }
}

proof fn lemma_fold_step(sum: int)
    requires
        sum >= 65536,
    ensures
        folded(sum % 65536 + sum / 65536) == folded(sum),
        0 < sum % 65536 + sum / 65536 < sum,
{
    let low = sum % 65536;
    let high = sum / 65536;
    assert(sum == 65536 * high + low);
    let next = low + high;
    assert(sum - 1 == 65535 * high + (next - 1));
    assert((sum - 1) % 65535 == (next - 1) % 65535) by {
        vstd::arithmetic::div_mod::lemma_mod_multiples_vanish(high, next - 1, 65535);
    }
}

/// Adds the carries back in until the sum fits in 16 bits.
pub fn fold_checksum(sum: u32) -> (folded_sum: u32)
    ensures
        folded_sum == folded(sum as int),
        folded_sum <= 65535,
{
    let mut rest: u32 = sum;
    while rest >= 65536
        invariant
            folded(rest as int) == folded(sum as int),
        decreases rest,
    {
        proof {
            lemma_fold_step(rest as int);
        }
        rest = rest % 65536 + rest / 65536;
    }
    proof {
        if rest > 0 {
            assert((rest - 1) % 65535 == rest - 1) by {
                vstd::arithmetic::div_mod::lemma_small_mod((rest - 1) as nat, 65535);
            }
        }
    }
    rest
}

/// The complement of a folded sum.
pub(crate) fn complement_of(sum: u32) -> (value: u16)
    ensures
        value == complement(sum as int),
{
    (65535 - fold_checksum(sum)) as u16
}

/// The sum of the 16-bit words of a packet or a part of one.
pub fn checksum_sum(input: &[u8]) -> (sum: u32)
    requires
        input@.len() <= 65535,
    ensures
        sum == word_sum(input@),
        sum <= 0x8080_0000,
{
    let mut sum: u32 = 0;
    let mut at: usize = 0;
    assert(input@.take(0).len() == 0);
    while at < input.len()
        invariant
            at <= input@.len() <= 65535,
            sum == word_sum(input@.take(at as int)),
            2 * sum <= 65535 * at + 65025,
        decreases input@.len() - at,
    {
        proof {
            lemma_word_sum_bounds(input@.take(at + 1));
            assert(input@.take(at + 1).drop_last() =~= input@.take(at as int));
        }
        if at % 2 == 0 {
            sum = sum + input[at] as u32 * 256;
        } else {
            sum = sum + input[at] as u32;
        }
        at += 1;
    }
    assert(input@.take(at as int) =~= input@);
    sum
}

/// The Internet checksum over a packet or a part of one.
pub fn internet_checksum(input: &[u8]) -> (checksum: u16)
    requires
        input@.len() <= 65535,
    ensures
        checksum == checksum_of(input@),
{
    complement_of(checksum_sum(input))
}

}
