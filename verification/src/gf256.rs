//! Arithmetic of the field with 256 elements that the repair code works in.
//!
//! A byte stands for a polynomial over the two-element field, bit `i` being the
//! coefficient of `x^i`. Products are taken modulo `x^8 + x^4 + x^3 + x^2 + 1`.
use vstd::prelude::*;

verus! {

/// The low eight bits of the reduction polynomial.
pub const REDUCTION: u8 = 0x1d;

/// `value` times `x`.
pub open spec fn times_x(value: u8) -> u8 {
    if value & 0x80 != 0 {
        (value << 1) ^ 0x1d
    } else {
        value << 1
    }
}

/// `left` where bit `bit` of `right` is set, and zero where it is not.
pub open spec fn select(left: u8, right: u8, bit: u8) -> u8 {
    if (right >> bit) & 1 != 0 {
        left
    } else {
        0
    }
}

/// The field product: the sum of `left * x^i` over the bits `i` set in `right`.
pub open spec fn product(left: u8, right: u8) -> u8 {
    let x1 = times_x(left);
    let x2 = times_x(x1);
    let x3 = times_x(x2);
    let x4 = times_x(x3);
    let x5 = times_x(x4);
    let x6 = times_x(x5);
    let x7 = times_x(x6);
    select(left, right, 0) ^ select(x1, right, 1) ^ select(x2, right, 2) ^ select(x3, right, 3)
        ^ select(x4, right, 4) ^ select(x5, right, 5) ^ select(x6, right, 6) ^ select(x7, right, 7)
}

/// One round of shift-and-add peels the lowest bit off the right factor.
proof fn lemma_product_step(left: u8, right: u8)
    by (bit_vector)
    ensures
        product(left, right) == select(left, right, 0) ^ product(times_x(left), right >> 1),
        product(left, 0) == 0,
{
}

/// One is neutral, zero absorbs, and no two non-zero values multiply to zero.
pub proof fn lemma_product_units(left: u8, right: u8)
    by (bit_vector)
    ensures
        product(left, 1) == left,
        product(1, left) == left,
        product(left, 0) == 0,
        product(0, left) == 0,
        product(left, right) == 0 ==> left == 0 || right == 0,
{
}

proof fn lemma_linear_parts(a: u8, b: u8, right: u8, bit: u8)
    by (bit_vector)
    requires
        bit < 8,
    ensures
        times_x(a ^ b) == times_x(a) ^ times_x(b),
        times_x(select(a, right, bit)) == select(times_x(a), right, bit),
        select(a ^ b, right, bit) == select(a, right, bit) ^ select(b, right, bit),
        select(right, a ^ b, bit) == select(right, a, bit) ^ select(right, b, bit),
{
}

proof fn lemma_xor_pairs(a: Seq<u8>, b: Seq<u8>)
    requires
        a.len() == 8,
        b.len() == 8,
    ensures
        (a[0] ^ b[0]) ^ (a[1] ^ b[1]) ^ (a[2] ^ b[2]) ^ (a[3] ^ b[3]) ^ (a[4] ^ b[4]) ^ (a[5] ^ b[5])
            ^ (a[6] ^ b[6]) ^ (a[7] ^ b[7]) == (a[0] ^ a[1] ^ a[2] ^ a[3] ^ a[4] ^ a[5] ^ a[6] ^ a[7])
            ^ (b[0] ^ b[1] ^ b[2] ^ b[3] ^ b[4] ^ b[5] ^ b[6] ^ b[7]),
{
    let (a0, a1, a2, a3, a4, a5, a6, a7) = (a[0], a[1], a[2], a[3], a[4], a[5], a[6], a[7]);
    let (b0, b1, b2, b3, b4, b5, b6, b7) = (b[0], b[1], b[2], b[3], b[4], b[5], b[6], b[7]);
    assert((a0 ^ b0) ^ (a1 ^ b1) ^ (a2 ^ b2) ^ (a3 ^ b3) ^ (a4 ^ b4) ^ (a5 ^ b5) ^ (a6 ^ b6) ^ (a7 ^ b7)
        == (a0 ^ a1 ^ a2 ^ a3 ^ a4 ^ a5 ^ a6 ^ a7) ^ (b0 ^ b1 ^ b2 ^ b3 ^ b4 ^ b5 ^ b6 ^ b7)) by (bit_vector);
}

#[verifier::rlimit(60)]
pub proof fn lemma_product_commutes(left: u8, right: u8)
    by (bit_vector)
    ensures
        product(left, right) == product(right, left),
{
}

/// The product distributes over addition, which is exclusive or.
pub proof fn lemma_product_distributes(left: u8, right: u8, factor: u8)
    ensures
        product(left ^ right, factor) == product(left, factor) ^ product(right, factor),
        product(factor, left ^ right) == product(factor, left) ^ product(factor, right),
{
    let x = factor_powers(factor);
    let a = Seq::new(8, |i: int| select(x[i], left, i as u8));
    let b = Seq::new(8, |i: int| select(x[i], right, i as u8));
    assert forall|i: int| 0 <= i < 8 implies #[trigger] select(x[i], left ^ right, i as u8) == a[i] ^ b[i] by {
        lemma_linear_parts(left, right, x[i], i as u8);
    }
    lemma_xor_pairs(a, b);
    assert(product(factor, left ^ right) == product(factor, left) ^ product(factor, right)) by {
        lemma_product_unfolds(factor, left ^ right);
        lemma_product_unfolds(factor, left);
        lemma_product_unfolds(factor, right);
    }
    lemma_product_commutes(factor, left ^ right);
    lemma_product_commutes(factor, left);
    lemma_product_commutes(factor, right);
}

/// `factor * x^i` for the eight bit positions.
spec fn factor_powers(factor: u8) -> Seq<u8> {
    let x1 = times_x(factor);
    let x2 = times_x(x1);
    let x3 = times_x(x2);
    let x4 = times_x(x3);
    let x5 = times_x(x4);
    let x6 = times_x(x5);
    seq![factor, x1, x2, x3, x4, x5, x6, times_x(x6)]
}

proof fn lemma_product_unfolds(factor: u8, right: u8)
    ensures
        ({
            let x = factor_powers(factor);
            product(factor, right) == select(x[0], right, 0) ^ select(x[1], right, 1) ^ select(x[2], right, 2)
                ^ select(x[3], right, 3) ^ select(x[4], right, 4) ^ select(x[5], right, 5)
                ^ select(x[6], right, 6) ^ select(x[7], right, 7)
        }),
{
}

/// Shifting a factor shifts the product.
proof fn lemma_times_x_moves(left: u8, right: u8)
    ensures
        product(times_x(left), right) == times_x(product(left, right)),
        product(left, times_x(right)) == times_x(product(left, right)),
{
    lemma_times_x_moves_left(left, right);
    lemma_times_x_moves_left(right, left);
    lemma_product_commutes(left, times_x(right));
    lemma_product_commutes(left, right);
}

#[verifier::rlimit(60)]
proof fn lemma_times_x_moves_left(left: u8, right: u8)
    by (bit_vector)
    ensures
        product(times_x(left), right) == times_x(product(left, right)),
{
}

proof fn lemma_product_select(a: u8, b: u8, right: u8, bit: u8)
    ensures
        product(a, select(b, right, bit)) == select(product(a, b), right, bit),
{
    lemma_product_units(a, 0);
}

/// The product does not depend on how its factors are grouped.
pub proof fn lemma_product_associates(a: u8, b: u8, c: u8)
    ensures
        product(product(a, b), c) == product(a, product(b, c)),
{
    let x = factor_powers(b);
    let y = factor_powers(product(a, b));
    lemma_product_unfolds(b, c);
    lemma_product_unfolds(product(a, b), c);
    let s = Seq::new(8, |i: int| select(x[i], c, i as u8));
    assert forall|i: int| 0 <= i < 8 implies product(a, #[trigger] s[i]) == select(y[i], c, i as u8) by {
        lemma_times_x_moves(a, x[0]);
        lemma_times_x_moves(a, x[1]);
        lemma_times_x_moves(a, x[2]);
        lemma_times_x_moves(a, x[3]);
        lemma_times_x_moves(a, x[4]);
        lemma_times_x_moves(a, x[5]);
        lemma_times_x_moves(a, x[6]);
        assert(product(a, x[i]) == y[i]);
        lemma_product_select(a, x[i], c, i as u8);
    }
    lemma_product_distributes(s[0], s[1], a);
    lemma_product_distributes(s[0] ^ s[1], s[2], a);
    lemma_product_distributes(s[0] ^ s[1] ^ s[2], s[3], a);
    lemma_product_distributes(s[0] ^ s[1] ^ s[2] ^ s[3], s[4], a);
    lemma_product_distributes(s[0] ^ s[1] ^ s[2] ^ s[3] ^ s[4], s[5], a);
    lemma_product_distributes(s[0] ^ s[1] ^ s[2] ^ s[3] ^ s[4] ^ s[5], s[6], a);
    lemma_product_distributes(s[0] ^ s[1] ^ s[2] ^ s[3] ^ s[4] ^ s[5] ^ s[6], s[7], a);
}

proof fn lemma_reciprocal_chain(
    v: u8, p2: u8, p4: u8, p8: u8, p16: u8, p32: u8, p64: u8, p128: u8,
    q6: u8, q14: u8, q30: u8, q62: u8, q126: u8, q254: u8,
)
    by (bit_vector)
    requires
        v != 0,
        p2 == product(v, v),
        p4 == product(p2, p2),
        p8 == product(p4, p4),
        p16 == product(p8, p8),
        p32 == product(p16, p16),
        p64 == product(p32, p32),
        p128 == product(p64, p64),
        q6 == product(p2, p4),
        q14 == product(q6, p8),
        q30 == product(q14, p16),
        q62 == product(q30, p32),
        q126 == product(q62, p64),
        q254 == product(q126, p128),
    ensures
        product(v, q254) == 1,
{
}


/// Exclusive or facts that the linear algebra rests on.
pub proof fn lemma_xor(a: u8, b: u8, c: u8)
    by (bit_vector)
    ensures
        a ^ b == b ^ a,
        (a ^ b) ^ c == a ^ (b ^ c),
        a ^ 0 == a,
        0 ^ a == a,
        a ^ a == 0,
        a ^ b == 0 ==> a == b,
        (a ^ b) ^ b == a,
{
}

/// `value` multiplied with itself `exponent` times.
pub open spec fn power(value: u8, exponent: nat) -> u8
    decreases exponent,
{
    if exponent == 0 {
        1
    } else {
        product(power(value, (exponent - 1) as nat), value)
    }
}

proof fn lemma_power_adds(value: u8, a: nat, b: nat)
    ensures
        power(value, a + b) == product(power(value, a), power(value, b)),
    decreases b,
{
    if b == 0 {
        lemma_product_units(power(value, a), 0);
    } else {
        lemma_power_adds(value, a, (b - 1) as nat);
        lemma_product_associates(power(value, a), power(value, (b - 1) as nat), value);
    }
}

/// A non-zero value to the power of 255 is one.
pub proof fn lemma_power_255(value: u8)
    requires
        value != 0,
    ensures
        product(value, power(value, 254)) == 1,
{
    reveal_with_fuel(power, 2);
    lemma_product_units(value, 0);
    assert(power(value, 1) == value);
    lemma_power_adds(value, 1, 1);
    lemma_power_adds(value, 2, 2);
    lemma_power_adds(value, 4, 4);
    lemma_power_adds(value, 8, 8);
    lemma_power_adds(value, 16, 16);
    lemma_power_adds(value, 32, 32);
    lemma_power_adds(value, 64, 64);
    lemma_power_adds(value, 2, 4);
    lemma_power_adds(value, 6, 8);
    lemma_power_adds(value, 14, 16);
    lemma_power_adds(value, 30, 32);
    lemma_power_adds(value, 62, 64);
    lemma_power_adds(value, 126, 128);
    lemma_reciprocal_chain(
        value, power(value, 2), power(value, 4), power(value, 8), power(value, 16), power(value, 32),
        power(value, 64), power(value, 128), power(value, 6), power(value, 14), power(value, 30),
        power(value, 62), power(value, 126), power(value, 254),
    );
}

/// The value that a non-zero value multiplies with to one.
pub open spec fn reciprocal(value: u8) -> u8 {
    choose|other: u8| product(value, other) == 1
}

/// There is exactly one reciprocal of a non-zero value.
pub proof fn lemma_reciprocal(value: u8, other: u8)
    requires
        value != 0,
    ensures
        product(value, reciprocal(value)) == 1,
        reciprocal(value) != 0,
        product(value, other) == 1 ==> other == reciprocal(value),
{
    lemma_power_255(value);
    let found = reciprocal(value);
    assert(product(value, found) == 1);
    lemma_product_units(value, 0);
    if product(value, other) == 1 {
        lemma_product_distributes(other, found, value);
        lemma_xor(1, 1, 0);
        lemma_product_units(value, other ^ found);
        lemma_xor(other, found, 0);
    }
}

/// Multiplies two field elements.
pub fn multiply(left: u8, right: u8) -> (output: u8)
    ensures
        output == product(left, right),
{
    let mut output: u8 = 0;
    let mut shifted: u8 = left;
    let mut remaining: u8 = right;
    proof {
        lemma_xor(product(left, right), 0, 0);
    }
    while remaining != 0
        invariant
            output ^ product(shifted, remaining) == product(left, right),
        decreases remaining,
    {
        proof {
            lemma_product_step(shifted, remaining);
            lemma_xor(output, select(shifted, remaining, 0), product(times_x(shifted), remaining >> 1));
            lemma_xor(output, 0, 0);
            lemma_halves(remaining);
        }
        if remaining & 1 != 0 {
            output = output ^ shifted;
        }
        let carry: bool = shifted & 0x80 != 0;
        shifted = shifted << 1;
        if carry {
            shifted = shifted ^ REDUCTION;
        }
        remaining = remaining >> 1;
    }
    proof {
        lemma_product_units(shifted, 0);
        lemma_xor(output, 0, 0);
    }
    output
}

/// The multiplicative inverse of a non-zero field element.
pub fn inverse(value: u8) -> (output: u8)
    requires
        value != 0,
    ensures
        product(value, output) == 1,
        output == reciprocal(value),
        output != 0,
{
    let mut base: u8 = value;
    let mut exponent: u8 = 254;
    let mut output: u8 = 1;
    let ghost mut done: nat = 0;
    let ghost mut step: nat = 1;
    proof {
        reveal_with_fuel(power, 2);
        lemma_product_units(value, 0);
    }
    while exponent != 0
        invariant
            output == power(value, done),
            base == power(value, step),
            done + step * exponent == 254,
        decreases exponent,
    {
        proof {
            lemma_power_adds(value, done, step);
            lemma_power_adds(value, step, step);
            lemma_halves(exponent);
        }
        let ghost before = exponent;
        if exponent & 1 != 0 {
            output = multiply(output, base);
            proof {
                done = done + step;
            }
        }
        base = multiply(base, base);
        exponent = exponent >> 1;
        proof {
            assert(step * before == step * (2 * exponent) + step * (before % 2)) by (nonlinear_arith)
                requires before == 2 * exponent + before % 2;
            assert(step * (2 * exponent) == (step + step) * exponent) by (nonlinear_arith);
            assert(before % 2 == 0 ==> step * (before % 2) == 0) by (nonlinear_arith);
            assert(before % 2 == 1 ==> step * (before % 2) == step) by (nonlinear_arith);
            step = step + step;
        }
    }
    proof {
        assert(step * 0 == 0) by (nonlinear_arith);
        lemma_power_255(value);
        lemma_reciprocal(value, output);
    }
    output
}

proof fn lemma_halves(value: u8)
    by (bit_vector)
    ensures
        value >> 1 == value / 2,
        value & 1 == value % 2,
        value != 0 ==> value >> 1 < value,
        (value >> 0) & 1 == value & 1,
{
}

}
