//! What the system's tables say, and how it is asked to filter and to send.
use crate::address::IpAddress;
use crate::faketcp::carrier::FakeTcpCarrier;
use crate::faketcp::decode;
use crate::faketcp::error::CarrierError;
use crate::faketcp::tuple::FourTuple;
use crate::raw::error::RawError;
use crate::raw::lines;
use crate::raw::outgoing;
use crate::raw::ring;
use crate::raw::ring::RingPayloadCopy;
use crate::raw::route;
use crate::raw::route::{RouteEntry, RouteModel};
use crate::raw::send;
use crate::raw::windivert;
use crate::raw::windivert::{PathComponent, SegmentPlan};
use crate::text;
use vstd::prelude::*;

verus! {

// ---------------------------------------------------------------------------
// Lines and words
// ---------------------------------------------------------------------------

/// A line starts with a word as soon as it has a character that is not blank: the word reaches
/// to the next blank or to the end, and the other words are those of what follows; a blank in
/// front changes nothing.
pub proof fn law_words_are_what_blanks_part(line: Seq<char>, word: Seq<char>, space: char, rest: Seq<char>)
    requires
        word.len() > 0,
        forall|at: int| 0 <= at < word.len() ==> !lines::blank(#[trigger] word[at]),
        lines::blank(space),
    ensures
        lines::words(seq![space] + line) == lines::words(line),
        lines::words(word) == seq![word],
        lines::words(word + (seq![space] + rest)) == seq![word] + lines::words(rest),
{
    let spaced = seq![space] + line;
    assert(spaced.skip(1) =~= line);
    lemma_whole_word(word, Seq::empty());
    assert(word + Seq::<char>::empty() =~= word);
    assert(word.take(word.len() as int) =~= word);
    assert(word.skip(word.len() as int).len() == 0);
    assert(lines::words(word) =~= seq![word]) by {
        assert(lines::words(word.skip(word.len() as int)).len() == 0);
        assert(seq![word] + Seq::<Seq<char>>::empty() =~= seq![word]);
        assert(lines::words(word.skip(word.len() as int)) =~= Seq::<Seq<char>>::empty());
    }
    let tail = seq![space] + rest;
    let whole = word + tail;
    lemma_whole_word(word, tail);
    assert(whole[0] == word[0]);
    assert(whole.take(word.len() as int) =~= word);
    assert(whole.skip(word.len() as int) =~= tail);
    assert(tail.skip(1) =~= rest);
    assert(lines::words(tail) == lines::words(rest));
}

proof fn lemma_whole_word(word: Seq<char>, rest: Seq<char>)
    requires
        forall|at: int| 0 <= at < word.len() ==> !lines::blank(#[trigger] word[at]),
        rest.len() == 0 || lines::blank(rest[0]),
    ensures
        lines::word_length(word + rest) == word.len(),
    decreases word.len(),
{
    if word.len() == 0 {
        assert(word + rest =~= rest);
    } else {
        let next = word.skip(1);
        assert forall|at: int| 0 <= at < next.len() implies !lines::blank(#[trigger] next[at]) by {
            assert(next[at] == word[at + 1]);
        }
        lemma_whole_word(next, rest);
        assert((word + rest).skip(1) =~= next + rest);
        assert((word + rest)[0] == word[0]);
    }
}

proof fn lemma_line(line: Seq<char>, rest: Seq<char>)
    requires
        forall|at: int| 0 <= at < line.len() ==> #[trigger] line[at] != '\n',
        rest.len() == 0 || rest[0] == '\n',
    ensures
        lines::line_length(line + rest) == line.len(),
    decreases line.len(),
{
    if line.len() == 0 {
        assert(line + rest =~= rest);
    } else {
        let next = line.skip(1);
        assert forall|at: int| 0 <= at < next.len() implies #[trigger] next[at] != '\n' by {
            assert(next[at] == line[at + 1]);
        }
        lemma_line(next, rest);
        assert((line + rest).skip(1) =~= next + rest);
        assert((line + rest)[0] == line[0]);
    }
}

/// A line reaches to the next line feed, without it and without a carriage return before it;
/// the other lines are those of what follows.
pub proof fn law_lines_are_what_line_feeds_part(line: Seq<char>, rest: Seq<char>)
    requires
        forall|at: int| 0 <= at < line.len() ==> #[trigger] line[at] != '\n',
    ensures
        lines::lines(line + (seq!['\n'] + rest)) == seq![
            if line.len() > 0 && line.last() == '\r' {
                line.drop_last()
            } else {
                line
            },
        ] + lines::lines(rest),
        line.len() > 0 ==> lines::lines(line) == seq![line],
{
    let tail = seq!['\n'] + rest;
    let whole = line + tail;
    lemma_line(line, tail);
    assert(whole.skip(line.len() as int + 1) =~= rest);
    assert(whole.take(line.len() as int) =~= line);
    if line.len() > 0 {
        assert(whole[line.len() - 1] == line.last());
        assert(whole.take(line.len() - 1) =~= line.drop_last());
        lemma_line(line, Seq::empty());
        assert(line + Seq::<char>::empty() =~= line);
    }
}

/// A character is blank where it is a space, one of the control characters from tab to carriage
/// return, or another of the wide spaces; no letter, digit or sign of the tables is.
pub proof fn law_letters_and_digits_are_not_blank(c: char, blank: bool)
    requires
        call_ensures(lines::is_blank, (c,), blank),
    ensures
        c == ' ' || c == '\t' || c == '\n' || c == '\r' ==> blank,
        '!' <= c <= '~' ==> !blank,
        blank && (c as int) < 128 ==> c == ' ' || 9 <= c as int <= 13,
{
}

/// A hexadecimal number is read where its value stays within the limit, and is that value.
pub proof fn law_hexadecimal_number_is_its_value(word: &[char], limit: u32, number: Option<u32>)
    requires
        word@.len() > 0,
        word@[0] != '+',
        call_ensures(lines::parse_hex, (word, limit), number),
    ensures
        number is Some <==> (lines::hex_value(word@) matches Some(value) && value <= limit),
        number matches Some(value) ==> lines::hex_value(word@) == Some(value as int),
{
}

// ---------------------------------------------------------------------------
// Routes and neighbours
// ---------------------------------------------------------------------------

proof fn lemma_best(table: Seq<Seq<char>>, destination: u32, big_endian: bool, index: int)
    requires
        0 <= index < table.len(),
    ensures
        route::route_in(table[index], destination, big_endian) matches Some(found) ==> (route::best_in(
            table,
            destination,
            big_endian,
        ) matches Some(best) && best.prefix >= found.prefix),
        route::best_in(table, destination, big_endian) matches Some(best) ==> exists|at: int|
            0 <= at < table.len()
                && first_of_its_length(table, #[trigger] table[at], at, destination, big_endian, best),
    decreases table.len(),
{
    let front = table.drop_last();
    if front.len() > 0 {
        if index < front.len() {
            assert(front[index] == table[index]);
            lemma_best(front, destination, big_endian, index);
        } else {
            lemma_best(front, destination, big_endian, 0);
        }
        if route::best_in(front, destination, big_endian) is Some {
            let best = route::best_in(front, destination, big_endian)->0;
            let at = choose|at: int|
                0 <= at < front.len()
                    && first_of_its_length(front, #[trigger] front[at], at, destination, big_endian, best);
            assert(table[at] == front[at]);
            assert forall|before: int| 0 <= before < at implies shorter(
                #[trigger] table[before],
                destination,
                big_endian,
                best,
            ) by {
                assert(front[before] == table[before]);
            }
            assert(first_of_its_length(table, table[at], at, destination, big_endian, best));
        }
    }
    let last = table.len() - 1;
    assert(table[last] == table.last());
    if route::best_in(table, destination, big_endian) is Some && route::best_in(table, destination, big_endian)
        != route::best_in(front, destination, big_endian) {
        let best = route::best_in(table, destination, big_endian)->0;
        assert forall|before: int| 0 <= before < last implies shorter(
            #[trigger] table[before],
            destination,
            big_endian,
            best,
        ) by {
            assert(front[before] == table[before]);
            lemma_best(front, destination, big_endian, before);
        }
        assert(first_of_its_length(table, table[last], last, destination, big_endian, best));
    }
}

/// Whether a line leads to a destination by a shorter prefix than a route, if at all.
pub open spec fn shorter(line: Seq<char>, destination: u32, big_endian: bool, route: RouteModel) -> bool {
    route::route_in(line, destination, big_endian) matches Some(other) ==> other.prefix < route.prefix
}

/// Whether a line of a table is a route that no line before it is as good as.
pub open spec fn first_of_its_length(
    table: Seq<Seq<char>>,
    line: Seq<char>,
    at: int,
    destination: u32,
    big_endian: bool,
    route: RouteModel,
) -> bool {
    &&& route::route_in(line, destination, big_endian) == Some(route)
    &&& forall|before: int| 0 <= before < at ==> shorter(#[trigger] table[before], destination, big_endian, route)
}

/// The route that is taken is one of the table that leads to the destination, and none in the
/// table that does has a longer prefix; of several with the longest prefix it is the first.
/// There is none only where no route leads there.
pub proof fn law_longest_route_is_taken(
    contents: &[char],
    destination: u32,
    big_endian: bool,
    result: Result<RouteEntry, RawError>,
    index: int,
)
    requires
        call_ensures(route::best_route, (contents, destination, big_endian), result),
        0 <= index < route::body_lines(contents@).len(),
    ensures
        route::route_in(route::body_lines(contents@)[index], destination, big_endian) matches Some(found) ==> {
            &&& result is Ok
            &&& route::best_in(route::body_lines(contents@), destination, big_endian) matches Some(best) && best.prefix
                >= found.prefix && result->Ok_0.gateway == best.gateway && result->Ok_0.interface@ == best.interface
        },
        result is Ok ==> exists|at: int, best: RouteModel|
            0 <= at < route::body_lines(contents@).len() && #[trigger] first_of_its_length(
                route::body_lines(contents@),
                route::body_lines(contents@)[at],
                at,
                destination,
                big_endian,
                best,
            ) && result->Ok_0.gateway == best.gateway && result->Ok_0.interface@ == best.interface,
        result matches Err(error) ==> error == RawError::NoRoute,
{
    let table = route::body_lines(contents@);
    lemma_best(table, destination, big_endian, index);
    if result is Ok {
        let best = route::best_in(table, destination, big_endian)->0;
        let at = choose|at: int|
            0 <= at < table.len()
                && first_of_its_length(table, #[trigger] table[at], at, destination, big_endian, best);
        assert(first_of_its_length(table, table[at], at, destination, big_endian, best));
    }
}

/// A line of the table leads to a destination where it is up and the destination lies in its
/// network; its fields are the interface, the network, the gateway, the flags and, as the
/// eighth, the mask. The prefix counts the bits of the mask.
pub proof fn law_route_lies_in_its_network(
    line: Seq<char>,
    destination: u32,
    network: u32,
    gateway: u32,
    flags: u32,
    mask: u32,
)
    requires
        lines::words(line).len() >= 8,
        lines::hex_number(lines::words(line)[1], 0xffff_ffff) == Some(network as int),
        lines::hex_number(lines::words(line)[2], 0xffff_ffff) == Some(gateway as int),
        lines::hex_number(lines::words(line)[3], 0xffff_ffff) == Some(flags as int),
        lines::hex_number(lines::words(line)[7], 0xffff_ffff) == Some(mask as int),
    ensures
        route::route_in(line, destination, false) is Some <==> flags % 2 == 1 && destination & mask == network & mask,
        route::route_in(line, destination, false) matches Some(found) ==> {
            &&& found.interface == lines::words(line)[0]
            &&& found.gateway == gateway
            &&& found.prefix == route::ones(mask)
        },
{
}

/// A neighbour that is found is complete: its line names the address and the interface, and
/// its hardware address has six bytes, not all of them zero.
pub proof fn law_neighbour_is_complete(
    contents: &[char],
    interface: &[char],
    address: u32,
    result: Result<Vec<u8>, RawError>,
)
    requires
        call_ensures(route::arp_neighbor, (contents, interface, address), result),
    ensures
        result matches Ok(octets) ==> {
            &&& octets@.len() == 6
            &&& octets@ != seq![0u8, 0u8, 0u8, 0u8, 0u8, 0u8]
            &&& exists|at: int|
                0 <= at < route::body_lines(contents@).len() && names(
                    #[trigger] route::body_lines(contents@)[at],
                    interface@,
                    address,
                    octets@,
                )
        },
        result matches Err(error) ==> error == RawError::NoNeighbor,
{
    if let Ok(octets) = result {
        lemma_first_neighbor(route::body_lines(contents@), interface@, address, octets@);
    }
}

/// Whether a line of the table names this hardware address for an address on an interface.
pub open spec fn names(line: Seq<char>, interface: Seq<char>, address: u32, octets: Seq<u8>) -> bool {
    let fields = lines::words(line);
    &&& fields.len() >= 6
    &&& fields[0] == text::dotted(address)
    &&& fields[5] == interface
    &&& octets == route::octets_in(fields[3], Seq::empty())
    &&& lines::hex_number(fields[2], 0xffff_ffff) matches Some(flags) && flags / 2 % 2 == 1
}

proof fn lemma_first_neighbor(table: Seq<Seq<char>>, interface: Seq<char>, address: u32, octets: Seq<u8>)
    requires
        route::first_neighbor(table, interface, address) == Some(octets),
    ensures
        exists|at: int| 0 <= at < table.len() && names(#[trigger] table[at], interface, address, octets),
    decreases table.len(),
{
    if route::neighbor_in(table[0], interface, address) is Some {
        assert(names(table[0], interface, address, octets));
    } else {
        let rest = table.skip(1);
        lemma_first_neighbor(rest, interface, address, octets);
        let at = choose|at: int| 0 <= at < rest.len() && names(#[trigger] rest[at], interface, address, octets);
        assert(table[at + 1] == rest[at]);
    }
}

/// A line that names a neighbour is found, unless one before it does.
pub proof fn law_neighbour_in_the_table_is_found(
    contents: &[char],
    interface: &[char],
    address: u32,
    result: Result<Vec<u8>, RawError>,
    index: int,
    octets: Seq<u8>,
)
    requires
        call_ensures(route::arp_neighbor, (contents, interface, address), result),
        0 <= index < route::body_lines(contents@).len(),
        names(route::body_lines(contents@)[index], interface@, address, octets),
        octets.len() == 6,
        octets != seq![0u8, 0u8, 0u8, 0u8, 0u8, 0u8],
    ensures
        result is Ok,
{
    lemma_neighbor_found(route::body_lines(contents@), interface@, address, index, octets);
}

proof fn lemma_neighbor_found(table: Seq<Seq<char>>, interface: Seq<char>, address: u32, index: int, octets: Seq<u8>)
    requires
        0 <= index < table.len(),
        names(table[index], interface, address, octets),
        octets.len() == 6,
        octets != seq![0u8, 0u8, 0u8, 0u8, 0u8, 0u8],
    ensures
        route::first_neighbor(table, interface, address) is Some,
    decreases table.len(),
{
    if index == 0 {
        assert(route::hardware_address(octets));
        assert(route::neighbor_in(table[0], interface, address) is Some);
    } else if route::neighbor_in(table[0], interface, address) is None {
        assert(table.skip(1)[index - 1] == table[index]);
        lemma_neighbor_found(table.skip(1), interface, address, index - 1, octets);
    }
}

// ---------------------------------------------------------------------------
// Asking the system
// ---------------------------------------------------------------------------

/// A copy of a packet that a ring cut off goes where the packet itself would have gone, as long
/// as it has the length that the ring told; otherwise it is skipped and counted.
pub proof fn law_copied_packet_goes_where_the_packet_would(
    inbound: &mut FakeTcpCarrier,
    received: usize,
    expected_length: usize,
    slot: &mut [u8],
    offset: usize,
    expected: Option<usize>,
    storage: &mut [u8],
    decode_rejects: &mut u64,
    result: Result<RingPayloadCopy, RawError>,
    direct: &mut FakeTcpCarrier,
    packet: &[u8],
    slot_then: &mut [u8],
    storage_then: &mut [u8],
    rejects_then: &mut u64,
    result_then: Result<RingPayloadCopy, RawError>,
)
    requires
        call_ensures(
            ring::place_copied_packet,
            (inbound, received, expected_length, slot, offset, expected, storage, decode_rejects),
            result,
        ),
        old(direct)@ == old(inbound)@,
        packet@ == old(storage)@.take(received as int),
        old(slot_then)@ == old(slot)@,
        *old(rejects_then) == *old(decode_rejects),
        call_ensures(
            ring::place_ring_packet,
            (direct, packet, slot_then, offset, expected, storage_then, rejects_then),
            result_then,
        ),
    ensures
        received == expected_length ==> {
            &&& result == result_then
            &&& final(slot)@ == final(slot_then)@
            &&& final(inbound)@ == final(direct)@
            &&& *final(decode_rejects) == *final(rejects_then)
        },
        received != expected_length ==> {
            &&& result == Ok::<RingPayloadCopy, RawError>(RingPayloadCopy::Skipped)
            &&& final(slot)@ == old(slot)@
            &&& final(inbound)@ == old(inbound)@
            &&& *old(decode_rejects) < u64::MAX ==> *final(decode_rejects) == *old(decode_rejects) + 1
        },
{
}

/// The adapter's filter names both directions of an IPv4 path, each with its own addresses and
/// ports, and leaves out what the adapter itself sent; there is none for IPv6.
pub proof fn law_adapter_filter_names_both_directions(
    given: FourTuple,
    result: Result<String, RawError>,
    source: u32,
    destination: u32,
)
    requires
        call_ensures(windivert::build_filter, (given,), result),
    ensures
        given.source.ip == IpAddress::V4(source) && given.destination.ip == IpAddress::V4(destination)
            ==> (result matches Ok(
            filter,
        ) && filter@ == "ip and tcp and !impostor and ((outbound"@ + windivert::direction_text(
            source,
            given.source.port,
            destination,
            given.destination.port,
        ) + ") or (inbound"@ + windivert::direction_text(
            destination,
            given.destination.port,
            source,
            given.source.port,
        ) + "))"@),
        given.source.ip is V6 || given.destination.ip is V6
            ==> result == Err::<String, RawError>(RawError::Unsupported),
{
}

/// The adapter's library is named by one plain name, without a directory.
pub proof fn law_library_has_a_plain_name(components: &[PathComponent], result: Result<(), RawError>)
    requires
        call_ensures(windivert::check_library_name, (components,), result),
    ensures
        result is Ok <==> components@.len() == 1 && components@[0] is Normal,
{
    if components@.len() == 1 && components@[0] is Normal {
        assert(components@ =~= seq![PathComponent::Normal]);
    }
}

/// A segment that the adapter sends is the one of its index, in a packet that opens the path
/// where it is the first, and acknowledges otherwise.
pub proof fn law_adapter_sends_each_segment(
    outbound: &mut FakeTcpCarrier,
    server_side: bool,
    contents: &[u8],
    plan: SegmentPlan,
    index: usize,
    pending: &mut Vec<u8>,
    result: Result<usize, CarrierError>,
)
    requires
        old(outbound).wf(),
        call_ensures(windivert::encode_segment, (outbound, server_side, contents, plan, index, pending), result),
    ensures
        ({
            let segment = send::segment_at(contents@, plan.size as int, index as int);
            &&& result is Ok <==> outgoing::sendable(old(outbound)@, segment, plan.capacity as int)
            &&& result matches Ok(length) ==> {
                &&& length == outgoing::header_bytes(old(outbound)@) + segment.len()
                &&& decode::packet_view(final(pending)@.take(length as int), None) matches Ok(view)
                    && outgoing::brings_next(old(outbound)@, server_side, segment, view)
                &&& final(outbound)@ == outgoing::behind(old(outbound)@, segment)
            }
            &&& result is Err ==> final(outbound)@ == old(outbound)@
        }),
{
    old(outbound).lemma_wf();
    outgoing::lemma_next(
        old(outbound)@,
        server_side,
        send::segment_at(contents@, plan.size as int, index as int),
        plan.capacity as int,
    );
}

} // verus!
