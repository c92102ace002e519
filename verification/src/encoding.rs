//! How numbers and addresses are written down, and read again.
use crate::address;
use crate::address::{IpAddress, SocketAddress};
use crate::endian;
use crate::text;
use vstd::prelude::*;

verus! {

/// A number of two or four bytes is written with its highest byte first, and reads back.
pub proof fn law_short_numbers_are_big_endian(
    short: u16,
    two: [u8; 2],
    short_read: u16,
    long: u32,
    four: [u8; 4],
    long_read: u32,
)
    requires
        call_ensures(endian::to_be16, (short,), two),
        call_ensures(endian::read_be16, (two@[0], two@[1]), short_read),
        call_ensures(endian::to_be32, (long,), four),
        call_ensures(endian::read_be32, (four@[0], four@[1], four@[2], four@[3]), long_read),
    ensures
        two@.len() == 2 && two@[0] * 256 + two@[1] == short,
        short_read == short,
        four@.len() == 4 && four@[0] * 16_777_216 + four@[1] * 65536 + four@[2] * 256 + four@[3] == long,
        long_read == long,
{
    endian::lemma_be16(short);
    endian::lemma_be32(long);
}

proof fn lemma_same_eight(left: u64, right: u64)
    requires
        endian::be64(left) == endian::be64(right),
    ensures
        left == right,
{
    endian::lemma_be64(left);
    endian::lemma_be64(right);
}

proof fn lemma_same_sixteen(left: u128, right: u128)
    requires
        endian::be128(left) == endian::be128(right),
    ensures
        left == right,
{
    endian::lemma_be128(left);
    endian::lemma_be128(right);
}

/// So is one of eight bytes, of which the first half holds what is above the second.
pub proof fn law_numbers_of_eight_bytes_are_big_endian(
    value: u64,
    eight: [u8; 8],
    input: &[u8],
    at: usize,
    read: u64,
)
    requires
        call_ensures(endian::to_be64, (value,), eight),
        at + 8 <= input@.len(),
        input@.subrange(at as int, at + 8) == eight@,
        call_ensures(endian::read_be64_at, (input, at), read),
    ensures
        eight@.take(4) == endian::be32((value / 0x1_0000_0000) as u32),
        eight@.skip(4) == endian::be32((value % 0x1_0000_0000) as u32),
        read == value,
{
    endian::lemma_be64_read(input@, at as int);
    lemma_same_eight(read, value);
    assert(eight@.take(4) =~= endian::be32((value / 0x1_0000_0000) as u32));
    assert(eight@.skip(4) =~= endian::be32((value % 0x1_0000_0000) as u32));
}

/// And so is one of sixteen.
pub proof fn law_numbers_of_sixteen_bytes_read_back(
    value: u128,
    sixteen: [u8; 16],
    input: &[u8],
    at: usize,
    read: u128,
)
    requires
        call_ensures(endian::to_be128, (value,), sixteen),
        at + 16 <= input@.len(),
        input@.subrange(at as int, at + 16) == sixteen@,
        call_ensures(endian::read_be128_at, (input, at), read),
    ensures
        read == value,
{
    endian::lemma_be128_read(input@, at as int);
    lemma_same_sixteen(read, value);
}

/// A number inside of a slice is the one that its bytes hold, and does not depend on others.
pub proof fn law_numbers_inside_are_read_in_place(
    bytes: &[u8],
    at: usize,
    short: u16,
    long: u32,
)
    requires
        at + 4 <= bytes@.len(),
        call_ensures(endian::read_be16_at, (bytes, at), short),
        call_ensures(endian::read_be32_at, (bytes, at), long),
    ensures
        short == bytes@[at as int] * 256 + bytes@[at + 1],
        long == bytes@[at as int] * 16_777_216 + bytes@[at + 1] * 65536 + bytes@[at + 2] * 256 + bytes@[at + 3],
{
    assert(bytes@[at as int] * 0x100_0000 + bytes@[at + 1] * 0x1_0000 + bytes@[at + 2] * 0x100 + bytes@[at + 3]
        <= 0xffff_ffff);
}

/// What a text of decimal digits says.
pub open spec fn said(digits: Seq<char>) -> int
    decreases digits.len(),
{
    if digits.len() == 0 {
        0
    } else {
        said(digits.drop_last()) * 10 + (digits.last() as int - '0' as int)
    }
}

proof fn lemma_decimal(value: nat)
    ensures
        text::decimal(value).len() > 0,
        said(text::decimal(value)) == value,
        forall|at: int| 0 <= at < text::decimal(value).len() ==> '0' <= #[trigger] text::decimal(value)[at] <= '9',
        value > 0 ==> text::decimal(value)[0] != '0',
    decreases value,
{
    reveal_with_fuel(said, 2);
    if value < 10 {
        let digits = text::decimal(value);
        assert(digits.drop_last().len() == 0);
        assert(digits[0] == text::digit(value as int));
    } else {
        lemma_decimal(value / 10);
        let front = text::decimal(value / 10);
        let last = text::digit((value % 10) as int);
        assert(front.push(last).drop_last() =~= front);
        assert(front.push(last).last() == last);
        assert forall|at: int| 0 <= at < front.push(last).len()
            implies '0' <= #[trigger] front.push(last)[at] <= '9' by {
            if at < front.len() {
                assert(front.push(last)[at] == front[at]);
            }
        }
        assert(front.push(last)[0] == front[0]);
    }
}

/// A number is written in decimal digits that say it, without a leading zero, behind what was
/// written before.
pub proof fn law_decimal_digits_say_the_number(written: &mut String, value: u32)
    requires
        call_ensures(text::append_decimal, (written, value), ()),
    ensures
        ({
            let digits = final(written)@.skip(old(written)@.len() as int);
            &&& final(written)@.take(old(written)@.len() as int) == old(written)@
            &&& said(digits) == value
            &&& digits.len() > 0
            &&& forall|at: int| 0 <= at < digits.len() ==> '0' <= #[trigger] digits[at] <= '9'
            &&& value > 0 ==> digits[0] != '0'
        }),
{
    lemma_decimal(value as nat);
    assert(final(written)@.skip(old(written)@.len() as int) =~= text::decimal(value as nat));
    assert(final(written)@.take(old(written)@.len() as int) =~= old(written)@);
}

/// An address is written as its four bytes in decimal, the highest first, with dots between.
pub proof fn law_addresses_are_dotted(written: &mut String, address: u32)
    requires
        call_ensures(text::append_address, (written, address), ()),
    ensures
        final(written)@ == old(written)@ + (text::decimal((address / 16_777_216) as nat) + seq!['.'] + text::decimal(
            (address / 65536 % 256) as nat,
        ) + seq!['.'] + text::decimal((address / 256 % 256) as nat) + seq!['.'] + text::decimal((address % 256) as nat)),
{
}

/// Addresses are ordered: IPv4 before IPv6, then by address, then by port. Of two that differ
/// in one of these exactly one comes first, and the order carries over.
pub proof fn law_addresses_are_ordered(
    left: SocketAddress,
    right: SocketAddress,
    third: SocketAddress,
    forward: bool,
    backward: bool,
    onward: bool,
    across: bool,
)
    requires
        call_ensures(SocketAddress::precedes, (&left, &right), forward),
        call_ensures(SocketAddress::precedes, (&right, &left), backward),
        call_ensures(SocketAddress::precedes, (&right, &third), onward),
        call_ensures(SocketAddress::precedes, (&left, &third), across),
    ensures
        forward || backward,
        forward && backward <==> left.ip == right.ip && left.port == right.port,
        forward && onward ==> across,
        left.ip is V4 && right.ip is V6 ==> forward && !backward,
        left.ip == right.ip && left.port < right.port ==> forward && !backward,
{
}

/// Addresses are told apart by their family and kind: 224.0.0.0 to 239.255.255.255 and all that
/// begin with ff are for groups, and zero is unspecified. An address has four or sixteen bytes.
pub proof fn law_kinds_of_addresses(ip: IpAddress, v4: bool, zero: bool, group: bool, bytes: Vec<u8>)
    requires
        call_ensures(IpAddress::is_ipv4, (&ip,), v4),
        call_ensures(IpAddress::is_unspecified, (&ip,), zero),
        call_ensures(IpAddress::is_multicast, (&ip,), group),
        call_ensures(IpAddress::to_octets, (&ip,), bytes),
    ensures
        match ip {
            IpAddress::V4(value) => {
                &&& v4
                &&& zero <==> value == 0
                &&& group <==> 0xe000_0000 <= value <= 0xefff_ffff
                &&& bytes@.len() == 4
                &&& bytes@[0] * 16_777_216 + bytes@[1] * 65536 + bytes@[2] * 256 + bytes@[3] == value
            },
            IpAddress::V6(value) => {
                &&& !v4
                &&& zero <==> value == 0
                &&& group <==> value >= 0xff00_0000_0000_0000_0000_0000_0000_0000
                &&& bytes@.len() == 16
                &&& endian::be128_at(bytes@, 0) == value
            },
        },
{
    match ip {
        IpAddress::V4(value) => {
            endian::lemma_be32(value);
            assert((value / 0x1000_0000 == 14) == (0xe000_0000 <= value <= 0xefff_ffff));
        },
        IpAddress::V6(value) => {
            endian::lemma_be128(value);
            assert((value / 0x100_0000_0000_0000_0000_0000_0000_0000 == 255) == (value
                >= 0xff00_0000_0000_0000_0000_0000_0000_0000));
        },
    }
}

} // verus!
