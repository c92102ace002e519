//! Finding the next hop and its hardware address in the system's tables.
use crate::address::{IpAddress, SocketAddress};
use crate::raw::error::RawError;
use crate::raw::lines;
use crate::text;
use vstd::prelude::*;

verus! {

/// A number of the routing table in the machine's byte order: the table's own order is
/// that of a little-endian machine.
pub open spec fn host_value(value: u32, big_endian: bool) -> u32 {
    if big_endian {
        (value % 0x100 * 0x100_0000 + value / 0x100 % 0x100 * 0x1_0000 + value / 0x1_0000 % 0x100 * 0x100 + value
            / 0x100_0000) as u32
    } else {
        value
    }
}

fn to_host(value: u32, big_endian: bool) -> (converted: u32)
    ensures
        converted == host_value(value, big_endian),
{
    if big_endian {
        value % 0x100 * 0x100_0000 + value / 0x100 % 0x100 * 0x1_0000 + value / 0x1_0000 % 0x100 * 0x100 + value
            / 0x100_0000
    } else {
        value
    }
}

/// How many bits of a number are set.
pub open spec fn ones(value: u32) -> int
    decreases value,
{
    if value == 0 {
        0
    } else {
        value % 2 + ones(value / 2)
    }
}

fn count_ones(value: u32) -> (count: u32)
    ensures
        count == ones(value),
        count <= value,
    decreases value,
{
    if value == 0 {
        0
    } else {
        let rest: u32 = count_ones(value / 2);
        value % 2 + rest
    }
}

/// A line of the routing table that leads to the destination.
pub ghost struct RouteModel {
    /// How many bits of the destination the line fixes.
    pub prefix: int,
    /// The interface.
    pub interface: Seq<char>,
    /// The gateway, or zero where the destination is on the interface's own network.
    pub gateway: u32,
}

/// The route that a line of the table is for a destination, if it is up and leads there.
pub open spec fn route_in(line: Seq<char>, destination: u32, big_endian: bool) -> Option<RouteModel> {
    let fields = lines::words(line);
    if fields.len() < 8 {
        None
    } else {
        match (
            lines::hex_number(fields[1], u32::MAX as int),
            lines::hex_number(fields[2], u32::MAX as int),
            lines::hex_number(fields[3], u32::MAX as int),
            lines::hex_number(fields[7], u32::MAX as int),
        ) {
            (Some(network), Some(gateway), Some(flags), Some(raw_mask)) => {
                let mask = host_value(raw_mask as u32, big_endian);
                if flags % 2 == 1 && destination & mask == host_value(network as u32, big_endian) & mask {
                    Some(
                        RouteModel {
                            prefix: ones(mask),
                            interface: fields[0],
                            gateway: host_value(gateway as u32, big_endian),
                        },
                    )
                } else {
                    None
                }
            },
            _ => None,
        }
    }
}

/// The best of some lines: the one that fixes the most bits, and of several such the
/// first.
pub open spec fn best_in(table: Seq<Seq<char>>, destination: u32, big_endian: bool) -> Option<RouteModel>
    decreases table.len(),
{
    if table.len() == 0 {
        None
    } else {
        let best = best_in(table.drop_last(), destination, big_endian);
        match (best, route_in(table.last(), destination, big_endian)) {
            (None, found) => found,
            (Some(_), None) => best,
            (Some(current), Some(found)) => if current.prefix >= found.prefix {
                best
            } else {
                Some(found)
            },
        }
    }
}

/// The lines of a table without its heading.
pub open spec fn body_lines(contents: Seq<char>) -> Seq<Seq<char>> {
    let all = lines::lines(contents);
    if all.len() == 0 {
        all
    } else {
        all.skip(1)
    }
}

/// A route.
#[derive(Debug)]
pub struct RouteEntry {
    /// The interface.
    pub interface: Vec<char>,
    /// The gateway, or zero where the destination is on the interface's own network.
    pub gateway: u32,
}

fn route_of(line: &[char], destination: u32, big_endian: bool) -> (found: Option<(u32, RouteEntry)>)
    ensures
        match found {
            None => route_in(line@, destination, big_endian) is None,
            Some((prefix, entry)) => {
                &&& route_in(line@, destination, big_endian) matches Some(model)
                &&& model.prefix == prefix
                &&& model.interface == entry.interface@
                &&& model.gateway == entry.gateway
            },
        },
{
    let places = lines::words_at(line);
    let ghost fields = lines::words(line@);
    assert(fields.len() == places@.len());
    if places.len() < 8 {
        return None;
    }
    assert(forall|index: int| 0 <= index < places@.len() ==> #[trigger] fields[index] == line@.subrange(
        places@[index].0 as int,
        places@[index].1 as int,
    ));
    let network = match field_hex(line, places[1]) {
        Some(value) => value,
        None => return None,
    };
    let gateway = match field_hex(line, places[2]) {
        Some(value) => value,
        None => return None,
    };
    let flags = match field_hex(line, places[3]) {
        Some(value) => value,
        None => return None,
    };
    let raw_mask = match field_hex(line, places[7]) {
        Some(value) => value,
        None => return None,
    };
    let mask: u32 = to_host(raw_mask, big_endian);
    if flags % 2 == 0 || destination & mask != to_host(network, big_endian) & mask {
        return None;
    }
    let name = vstd::slice::slice_subrange(line, places[0].0, places[0].1);
    let interface = copied(name);
    Some((count_ones(mask), RouteEntry { interface, gateway: to_host(gateway, big_endian) }))
}

fn field_hex(line: &[char], place: (usize, usize)) -> (number: Option<u32>)
    requires
        place.0 <= place.1 <= line@.len(),
    ensures
        match number {
            Some(value) => lines::hex_number(line@.subrange(place.0 as int, place.1 as int), u32::MAX as int) == Some(
                value as int,
            ),
            None => lines::hex_number(line@.subrange(place.0 as int, place.1 as int), u32::MAX as int) is None,
        },
{
    lines::parse_hex(vstd::slice::slice_subrange(line, place.0, place.1), u32::MAX)
}

fn copied(text: &[char]) -> (copy: Vec<char>)
    ensures
        copy@ == text@,
{
    let mut copy: Vec<char> = Vec::new();
    let mut at: usize = 0;
    while at < text.len()
        invariant
            at <= text@.len(),
            copy@ == text@.take(at as int),
        decreases text@.len() - at,
    {
        copy.push(text[at]);
        at = at + 1;
        assert(copy@ =~= text@.take(at as int));
    }
    assert(text@.take(at as int) =~= text@);
    copy
}

/// Finds the route to a destination in the text of the routing table.
pub fn best_route(contents: &[char], destination: u32, big_endian: bool) -> (result: Result<RouteEntry, RawError>)
    ensures
        match best_in(body_lines(contents@), destination, big_endian) {
            Some(route) => result matches Ok(entry) && entry.interface@ == route.interface && entry.gateway
                == route.gateway,
            None => result matches Err(error) && error == RawError::NoRoute,
        },
{
    let mut best: Option<(u32, RouteEntry)> = None;
    assert(contents@.skip(0) =~= contents@);
    let mut at: usize = match lines::line_at(contents, 0) {
        None => return Err(RawError::NoRoute),
        Some(heading) => heading.next,
    };
    let ghost all = body_lines(contents@);
    let ghost mut done: int = 0;
    proof {
        assert(lines::lines(contents@).skip(1) =~= lines::lines(contents@.skip(at as int)));
        assert(all.skip(0) =~= all);
        assert(all.take(0) =~= Seq::empty());
    }
    while at < contents.len()
        invariant
            at <= contents@.len(),
            0 <= done <= all.len(),
            lines::lines(contents@.skip(at as int)) == all.skip(done),
            match best {
                None => best_in(all.take(done), destination, big_endian) is None,
                Some((prefix, entry)) => {
                    &&& best_in(all.take(done), destination, big_endian) matches Some(model)
                    &&& model.prefix == prefix
                    &&& model.interface == entry.interface@
                    &&& model.gateway == entry.gateway
                },
            },
        decreases contents@.len() - at,
    {
        match lines::line_at(contents, at) {
            None => {
                assert(contents@.skip(at as int).len() > 0);
                return Err(RawError::NoRoute);
            },
            Some(line) => {
                let row = vstd::slice::slice_subrange(contents, line.start, line.end);
                proof {
                    assert(all.skip(done).len() >= 1 && all.skip(done)[0] == row@);
                    assert(all[done] == row@);
                    assert(all.take(done + 1).drop_last() =~= all.take(done));
                    assert(all.take(done + 1).last() == row@);
                    assert(all.skip(done).skip(1) =~= all.skip(done + 1));
                    assert(all.skip(done).skip(1) =~= lines::lines(contents@.skip(line.next as int)));
                }
                if let Some((prefix, entry)) = route_of(row, destination, big_endian) {
                    let keep: bool = match &best {
                        None => false,
                        Some(current) => current.0 >= prefix,
                    };
                    if !keep {
                        best = Some((prefix, entry));
                    }
                }
                proof {
                    done = done + 1;
                }
                at = line.next;
            },
        }
    }
    proof {
        assert(contents@.skip(at as int).len() == 0);
        assert(lines::lines(contents@.skip(at as int)).len() == 0);
        assert(all.skip(done).len() == 0);
        assert(all.take(done) =~= all);
    }
    match best {
        Some((_, route)) => Ok(route),
        None => Err(RawError::NoRoute),
    }
}

/// The chosen route is one of the table's, and no other route of the table to the same
/// destination fixes more bits. A route is chosen wherever the table has one.
pub proof fn law_best_route_is_longest(table: Seq<Seq<char>>, destination: u32, big_endian: bool)
    ensures
        match best_in(table, destination, big_endian) {
            Some(best) => {
                &&& exists|index: int|
                    0 <= index < table.len() && route_in(#[trigger] table[index], destination, big_endian) == Some(
                        best,
                    )
                &&& forall|index: int|
                    0 <= index < table.len() ==> (route_in(#[trigger] table[index], destination, big_endian) matches Some(
                        other,
                    ) ==> other.prefix <= best.prefix)
            },
            None => forall|index: int|
                0 <= index < table.len() ==> route_in(#[trigger] table[index], destination, big_endian) is None,
        },
    decreases table.len(),
{
    if table.len() > 0 {
        let front = table.drop_last();
        law_best_route_is_longest(front, destination, big_endian);
        assert(forall|index: int| 0 <= index < front.len() ==> front[index] == #[trigger] table[index]);
        assert(table[table.len() - 1] == table.last());
        if let Some(best) = best_in(front, destination, big_endian) {
            let index = choose|index: int|
                0 <= index < front.len() && route_in(#[trigger] front[index], destination, big_endian) == Some(best);
            assert(table[index] == front[index]);
        }
    }
}

/// How a destination is reached.
#[derive(Clone, Copy, Debug, PartialEq, Eq, Structural)]
pub enum PacketRoute {
    /// Over the loopback interface, which has no hardware addresses.
    Loopback,
    /// By the routing table.
    Routed(u32),
}

/// Decides how an IPv4 destination is reached.
pub fn packet_route(destination: SocketAddress) -> (result: Result<PacketRoute, RawError>)
    ensures
        result == (match destination.ip {
            IpAddress::V4(address) => if address / 0x100_0000 == 127 {
                Ok::<PacketRoute, RawError>(PacketRoute::Loopback)
            } else {
                Ok(PacketRoute::Routed(address))
            },
            IpAddress::V6(_) => Err(RawError::Unsupported),
        }),
{
    match destination.ip {
        IpAddress::V4(address) => if address / 0x100_0000 == 127 {
            Ok(PacketRoute::Loopback)
        } else {
            Ok(PacketRoute::Routed(address))
        },
        IpAddress::V6(_) => Err(RawError::Unsupported),
    }
}

/// The next hop on a route: the gateway, or the destination itself.
pub fn next_hop(destination: u32, gateway: u32) -> (hop: u32)
    ensures
        hop == if gateway == 0 {
            destination
        } else {
            gateway
        },
{
    if gateway == 0 {
        destination
    } else {
        gateway
    }
}

/// The octets that the parts of a hardware address give; parts that are no octet count for
/// nothing. `part` is what was read of the current part.
pub open spec fn octets_in(word: Seq<char>, part: Seq<char>) -> Seq<u8>
    decreases word.len(),
{
    let own = match lines::hex_number(part, 0xff) {
        Some(octet) => seq![octet as u8],
        None => Seq::empty(),
    };
    if word.len() == 0 {
        own
    } else if word[0] == ':' {
        own + octets_in(word.skip(1), Seq::empty())
    } else {
        octets_in(word.skip(1), part.push(word[0]))
    }
}

/// Whether some octets are a hardware address: six, and not all of them zero.
pub open spec fn hardware_address(octets: Seq<u8>) -> bool {
    octets.len() == 6 && octets != seq![0u8, 0, 0, 0, 0, 0]
}

/// The hardware address that a line of the neighbor table gives for an address on an
/// interface, if the line is complete.
pub open spec fn neighbor_in(line: Seq<char>, interface: Seq<char>, address: u32) -> Option<Seq<u8>> {
    let fields = lines::words(line);
    if fields.len() < 6 || fields[0] != text::dotted(address) || fields[5] != interface {
        None
    } else {
        match lines::hex_number(fields[2], u32::MAX as int) {
            Some(flags) if flags / 2 % 2 == 1 => {
                let octets = octets_in(fields[3], Seq::empty());
                if hardware_address(octets) {
                    Some(octets)
                } else {
                    None
                }
            },
            _ => None,
        }
    }
}

/// The first hardware address that the lines of a table give.
pub open spec fn first_neighbor(table: Seq<Seq<char>>, interface: Seq<char>, address: u32) -> Option<Seq<u8>>
    decreases table.len(),
{
    if table.len() == 0 {
        None
    } else {
        match neighbor_in(table[0], interface, address) {
            Some(octets) => Some(octets),
            None => first_neighbor(table.skip(1), interface, address),
        }
    }
}

fn same_text(left: &[char], right: &[char]) -> (same: bool)
    ensures
        same == (left@ == right@),
{
    if left.len() != right.len() {
        return false;
    }
    let mut at: usize = 0;
    while at < left.len()
        invariant
            at <= left@.len() == right@.len(),
            left@.take(at as int) == right@.take(at as int),
        decreases left@.len() - at,
    {
        if left[at] != right[at] {
            assert(left@[at as int] != right@[at as int]);
            return false;
        }
        at = at + 1;
        assert(left@.take(at as int) =~= right@.take(at as int));
    }
    assert(left@.take(at as int) =~= left@ && right@.take(at as int) =~= right@);
    true
}

fn is_text(left: &[char], right: &str) -> (same: bool)
    ensures
        same == (left@ == right@),
{
    let length: usize = right.unicode_len();
    if left.len() != length {
        return false;
    }
    let mut at: usize = 0;
    while at < length
        invariant
            at <= length == left@.len(),
            length == right@.len(),
            left@.take(at as int) == right@.take(at as int),
        decreases length - at,
    {
        if left[at] != right.get_char(at) {
            assert(left@[at as int] != right@[at as int]);
            return false;
        }
        at = at + 1;
        assert(left@.take(at as int) =~= right@.take(at as int));
    }
    assert(left@.take(at as int) =~= left@ && right@.take(at as int) =~= right@);
    true
}

fn parse_octets(word: &[char]) -> (octets: Vec<u8>)
    ensures
        octets@ == octets_in(word@, Seq::empty()),
{
    let mut octets: Vec<u8> = Vec::new();
    let mut part: Vec<char> = Vec::new();
    let mut at: usize = 0;
    assert(word@.skip(0) =~= word@);
    assert(octets@ + octets_in(word@, part@) =~= octets_in(word@, Seq::empty()));
    while at < word.len()
        invariant
            at <= word@.len(),
            octets@ + octets_in(word@.skip(at as int), part@) == octets_in(word@, Seq::empty()),
        decreases word@.len() - at,
    {
        assert(word@.skip(at as int).skip(1) =~= word@.skip(at + 1));
        assert(word@.skip(at as int)[0] == word@[at as int]);
        if word[at] == ':' {
            let ghost before = octets@;
            if let Some(octet) = lines::parse_hex(part.as_slice(), 0xff) {
                octets.push(octet as u8);
            }
            part.clear();
            assert(part@ =~= Seq::empty());
            assert(octets@ + octets_in(word@.skip(at + 1), part@) =~= octets_in(word@, Seq::empty()));
        } else {
            part.push(word[at]);
        }
        at = at + 1;
    }
    assert(word@.skip(at as int).len() == 0);
    if let Some(octet) = lines::parse_hex(part.as_slice(), 0xff) {
        octets.push(octet as u8);
    }
    assert(octets@ =~= octets_in(word@, Seq::empty()));
    octets
}

fn neighbor_of(line: &[char], interface: &[char], address_text: &str, address: u32) -> (found: Option<Vec<u8>>)
    requires
        address_text@ == text::dotted(address),
    ensures
        match found {
            Some(octets) => neighbor_in(line@, interface@, address) == Some(octets@),
            None => neighbor_in(line@, interface@, address) is None,
        },
{
    let places = lines::words_at(line);
    let ghost fields = lines::words(line@);
    assert(fields.len() == places@.len());
    if places.len() < 6 {
        return None;
    }
    assert(forall|index: int| 0 <= index < places@.len() ==> #[trigger] fields[index] == line@.subrange(
        places@[index].0 as int,
        places@[index].1 as int,
    ));
    if !is_text(vstd::slice::slice_subrange(line, places[0].0, places[0].1), address_text) || !same_text(
        vstd::slice::slice_subrange(line, places[5].0, places[5].1),
        interface,
    ) {
        return None;
    }
    let flags = match field_hex(line, places[2]) {
        Some(flags) => flags,
        None => return None,
    };
    if flags / 2 % 2 == 0 {
        return None;
    }
    let octets = parse_octets(vstd::slice::slice_subrange(line, places[3].0, places[3].1));
    if octets.len() != 6 {
        return None;
    }
    let zero: bool = octets[0] == 0 && octets[1] == 0 && octets[2] == 0 && octets[3] == 0 && octets[4] == 0
        && octets[5] == 0;
    if zero {
        assert(octets@ =~= seq![0u8, 0, 0, 0, 0, 0]);
        return None;
    }
    assert(octets@ != seq![0u8, 0, 0, 0, 0, 0]);
    Some(octets)
}

/// Finds the hardware address of a neighbor in the text of the neighbor table.
pub fn arp_neighbor(contents: &[char], interface: &[char], address: u32) -> (result: Result<Vec<u8>, RawError>)
    ensures
        match first_neighbor(body_lines(contents@), interface@, address) {
            Some(octets) => result matches Ok(found) && found@ == octets && hardware_address(octets),
            None => result matches Err(error) && error == RawError::NoNeighbor,
        },
{
    let mut address_text = String::new();
    text::append_address(&mut address_text, address);
    assert(address_text@ =~= text::dotted(address));
    assert(contents@.skip(0) =~= contents@);
    let mut at: usize = match lines::line_at(contents, 0) {
        None => return Err(RawError::NoNeighbor),
        Some(heading) => heading.next,
    };
    let ghost all = body_lines(contents@);
    proof {
        assert(lines::lines(contents@).skip(1) =~= lines::lines(contents@.skip(at as int)));
    }
    while at < contents.len()
        invariant
            at <= contents@.len(),
            address_text@ == text::dotted(address),
            first_neighbor(all, interface@, address) == first_neighbor(
                lines::lines(contents@.skip(at as int)),
                interface@,
                address,
            ),
            all == body_lines(contents@),
        decreases contents@.len() - at,
    {
        let ghost rest = lines::lines(contents@.skip(at as int));
        match lines::line_at(contents, at) {
            None => {
                assert(contents@.skip(at as int).len() > 0);
                return Err(RawError::NoNeighbor);
            },
            Some(line) => {
                let row = vstd::slice::slice_subrange(contents, line.start, line.end);
                proof {
                    assert(rest[0] == row@);
                    assert(rest.skip(1) =~= lines::lines(contents@.skip(line.next as int)));
                }
                if let Some(octets) = neighbor_of(row, interface, address_text.as_str(), address) {
                    return Ok(octets);
                }
                at = line.next;
            },
        }
    }
    assert(contents@.skip(at as int).len() == 0);
    Err(RawError::NoNeighbor)
}

/// The length of a hardware address: that of the loopback interface is empty.
pub fn hardware_length(address: &[u8]) -> (length: u8)
    requires
        address@.len() == 6,
    ensures
        length == if hardware_address(address@) {
            6u8
        } else {
            0
        },
{
    if address[0] == 0 && address[1] == 0 && address[2] == 0 && address[3] == 0 && address[4] == 0 && address[5] == 0 {
        assert(address@ =~= seq![0u8, 0, 0, 0, 0, 0]);
        0
    } else {
        assert(address@ != seq![0u8, 0, 0, 0, 0, 0]);
        6
    }
}

}
