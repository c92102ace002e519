//! Numbers as text.
use vstd::prelude::*;

verus! {

/// The character of a decimal digit.
pub open spec fn digit(value: int) -> char {
    (48 + value) as char
}

/// The decimal digits of a number, without leading zeros.
pub open spec fn decimal(value: nat) -> Seq<char>
    decreases value,
{
    if value < 10 {
        seq![digit(value as int)]
    } else {
        decimal(value / 10).push(digit((value % 10) as int))
    }
}

/// The text of an IPv4 address.
pub open spec fn dotted(address: u32) -> Seq<char> {
    decimal((address / 0x100_0000) as nat) + seq!['.'] + decimal((address / 0x1_0000 % 256) as nat) + seq!['.']
        + decimal((address / 0x100 % 256) as nat) + seq!['.'] + decimal((address % 256) as nat)
}

fn digit_text(value: u32) -> (text: &'static str)
    requires
        value < 10,
    ensures
        text@ == seq![digit(value as int)],
{
    proof {
        reveal_strlit("0");
        reveal_strlit("1");
        reveal_strlit("2");
        reveal_strlit("3");
        reveal_strlit("4");
        reveal_strlit("5");
        reveal_strlit("6");
        reveal_strlit("7");
        reveal_strlit("8");
        reveal_strlit("9");
    }
    if value == 0 {
        "0"
    } else if value == 1 {
        "1"
    } else if value == 2 {
        "2"
    } else if value == 3 {
        "3"
    } else if value == 4 {
        "4"
    } else if value == 5 {
        "5"
    } else if value == 6 {
        "6"
    } else if value == 7 {
        "7"
    } else if value == 8 {
        "8"
    } else {
        "9"
    }
}

/// Appends the decimal digits of a number.
pub fn append_decimal(text: &mut String, value: u32)
    ensures
        final(text)@ == old(text)@ + decimal(value as nat),
    decreases value,
{
    if value >= 10 {
        append_decimal(text, value / 10);
    }
    text.append(digit_text(value % 10));
}

/// Appends the text of an IPv4 address.
pub fn append_address(text: &mut String, address: u32)
    ensures
        final(text)@ == old(text)@ + dotted(address),
{
    proof {
        reveal_strlit(".");
    }
    append_decimal(text, address / 0x100_0000);
    text.append(".");
    append_decimal(text, address / 0x1_0000 % 256);
    text.append(".");
    append_decimal(text, address / 0x100 % 256);
    text.append(".");
    append_decimal(text, address % 256);
    assert("."@ =~= seq!['.']);
    assert(text@ =~= old(text)@ + dotted(address));
}

/// `std::str::from_utf8`: the text that some bytes encode, where they are UTF-8.
#[verifier::external_body]
pub(crate) fn from_utf8(bytes: &[u8]) -> (text: Option<&str>)
    ensures
        match text {
            Some(decoded) => vstd::utf8::valid_utf8(bytes@) && decoded@ == vstd::utf8::decode_utf8(bytes@),
            None => !vstd::utf8::valid_utf8(bytes@),
        },
{
    std::str::from_utf8(bytes).ok()
}

}
