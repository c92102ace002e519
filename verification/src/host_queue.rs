//! What holds over the calls on both sides of a host's datagram socket.
use crate::address::{IpAddress, SocketAddress};
use crate::host_carrier::{HostDatagramError, HostDatagramSocket, HostReceive, HostSend, Wakes};
use vstd::prelude::*;

verus! {

/// A datagram that the host hands in from the peer is the one that is received, whole, after
/// those that were handed in before; it wakes a receiver that waits.
pub proof fn law_handed_in_datagram_is_received(
    entering: &mut HostDatagramSocket,
    source: SocketAddress,
    packet: &[u8],
    accepted: Result<bool, HostDatagramError>,
    receiving: &mut HostDatagramSocket,
    output: &mut [u8],
    outcome: HostReceive,
)
    requires
        old(entering)@.ingress.len() == 0,
        call_ensures(HostDatagramSocket::ingress_datagram_from, (entering, source, packet), accepted),
        accepted is Ok,
        old(receiving)@ == final(entering)@,
        call_ensures(HostDatagramSocket::receive, (receiving, true, output), outcome),
    ensures
        source == old(entering)@.peer,
        0 < packet@.len() <= old(entering)@.mtu,
        accepted == Ok::<bool, HostDatagramError>(old(entering)@.receiver_waits),
        !final(entering)@.receiver_waits,
        packet@.len() <= old(output)@.len() ==> {
            &&& outcome matches HostReceive::Received(length) && length == packet@.len()
            &&& final(output)@.take(packet@.len() as int) == packet@
            &&& final(receiving)@.ingress.len() == 0
        },
        packet@.len() > old(output)@.len() ==> {
            &&& outcome matches HostReceive::BufferTooSmall { required, capacity } && required == packet@.len()
                && capacity == old(output)@.len()
            &&& final(receiving)@.ingress == old(receiving)@.ingress
        },
{
    assert(packet.len() == packet@.len());
    assert(old(output).len() == old(output)@.len());
    if packet@.len() <= old(output)@.len() {
        assert((packet@ + old(output)@.skip(packet@.len() as int)).take(packet@.len() as int) =~= packet@);
    }
}

/// A datagram from the peer is taken exactly where the path is up, the datagram is not empty
/// and within the MTU, and the queue has room; each refusal says why, and changes nothing.
pub proof fn law_datagram_of_the_peer_is_taken(
    socket: &mut HostDatagramSocket,
    source: SocketAddress,
    packet: &[u8],
    result: Result<bool, HostDatagramError>,
)
    requires
        call_ensures(HostDatagramSocket::ingress_datagram_from, (socket, source, packet), result),
    ensures
        result is Ok <==> !old(socket)@.unavailable && source == old(socket)@.peer
            && 0 < packet@.len() <= old(socket)@.mtu && old(socket)@.ingress.len() < old(socket)@.capacity,
        result is Ok ==> final(socket)@.ingress == old(socket)@.ingress.push(packet@),
        result is Err ==> final(socket)@ == old(socket)@,
        old(socket)@.unavailable ==> result == Err::<bool, HostDatagramError>(HostDatagramError::Unavailable),
        !old(socket)@.unavailable && source != old(socket)@.peer ==> result == Err::<bool, HostDatagramError>(
            HostDatagramError::PeerMismatch { expected: old(socket)@.peer, actual: source },
        ),
        !old(socket)@.unavailable && source == old(socket)@.peer && 0 < packet@.len() <= old(socket)@.mtu
            && old(socket)@.ingress.len() >= old(socket)@.capacity ==> result == Err::<bool, HostDatagramError>(
            HostDatagramError::QueueFull,
        ),
        final(socket)@.egress == old(socket)@.egress,
{
}

/// Handing in a datagram without its source is handing it in from the peer.
pub proof fn law_sourceless_datagram_is_the_peers(
    plain: &mut HostDatagramSocket,
    named: &mut HostDatagramSocket,
    packet: &[u8],
    result: Result<bool, HostDatagramError>,
    result_named: Result<bool, HostDatagramError>,
)
    requires
        old(named)@ == old(plain)@,
        call_ensures(HostDatagramSocket::ingress_datagram, (plain, packet), result),
        call_ensures(
            HostDatagramSocket::ingress_datagram_from,
            (named, old(plain)@.peer, packet),
            result_named,
        ),
    ensures
        result == result_named,
        final(plain)@ == final(named)@,
{
}

/// A datagram that is sent is the one that the host takes out, whole, after those that were
/// sent before; a sender that waits for room is woken then.
pub proof fn law_sent_datagram_is_taken_out(
    sending: &mut HostDatagramSocket,
    destination: SocketAddress,
    source: Option<IpAddress>,
    contents: &[u8],
    outcome: HostSend,
    taking: &mut HostDatagramSocket,
    output: &mut [u8],
    result: Result<Option<(usize, bool)>, HostDatagramError>,
)
    requires
        old(sending)@.egress.len() == 0,
        call_ensures(HostDatagramSocket::send, (sending, destination, source, None::<usize>, contents), outcome),
        outcome is Sent,
        old(taking)@ == final(sending)@,
        call_ensures(HostDatagramSocket::poll_egress_datagram_into, (taking, output), result),
    ensures
        destination == old(sending)@.peer,
        source matches Some(ip) ==> ip == old(sending)@.local.ip,
        0 < contents@.len() <= old(sending)@.mtu,
        contents@.len() <= old(output)@.len() ==> {
            &&& result matches Ok(Some((length, wake))) && length == contents@.len()
                && wake == old(taking)@.sender_waits
            &&& final(output)@.take(contents@.len() as int) == contents@
            &&& final(taking)@.egress.len() == 0
            &&& !final(taking)@.sender_waits
        },
        contents@.len() > old(output)@.len() ==> result is Err && final(taking)@ == old(taking)@,
{
    assert(contents.len() == contents@.len());
    if contents@.len() <= old(output)@.len() {
        assert((contents@ + old(output)@.skip(contents@.len() as int)).take(contents@.len() as int) =~= contents@);
    }
}

/// A datagram is sent exactly where the path is up, the addresses are those of the path, it is
/// not to be cut, it is not empty and within the MTU, and the queue has room; where only room
/// is missing the sender waits.
pub proof fn law_datagram_is_sent_on_its_path_only(
    socket: &mut HostDatagramSocket,
    destination: SocketAddress,
    source: Option<IpAddress>,
    segment_size: Option<usize>,
    contents: &[u8],
    outcome: HostSend,
)
    requires
        call_ensures(HostDatagramSocket::send, (socket, destination, source, segment_size, contents), outcome),
    ensures
        ({
            let path = destination == old(socket)@.peer && (source matches Some(ip) ==> ip == old(socket)@.local.ip);
            let fits = 0 < contents@.len() <= old(socket)@.mtu;
            let room = old(socket)@.egress.len() < old(socket)@.capacity;
            &&& outcome is Sent <==> !old(socket)@.unavailable && path && segment_size is None && fits && room
            &&& outcome is Pending <==> !old(socket)@.unavailable && path && segment_size is None && fits && !room
            &&& outcome is NetworkDown <==> old(socket)@.unavailable
            &&& outcome is WrongPath <==> !old(socket)@.unavailable && !path
            &&& outcome is Segmented <==> !old(socket)@.unavailable && path && segment_size is Some
        }),
        outcome is Sent ==> final(socket)@.egress == old(socket)@.egress.push(contents@),
        outcome is Pending ==> final(socket)@.sender_waits,
        !(outcome is Sent) ==> final(socket)@.egress == old(socket)@.egress,
        final(socket)@.ingress == old(socket)@.ingress,
{
}

/// The oldest datagram is taken out first, and the others keep their order.
pub proof fn law_oldest_datagram_leaves_first(
    socket: &mut HostDatagramSocket,
    output: &mut [u8],
    result: Result<Option<(usize, bool)>, HostDatagramError>,
)
    requires
        call_ensures(HostDatagramSocket::poll_egress_datagram_into, (socket, output), result),
    ensures
        result matches Ok(Some((length, wake))) ==> {
            &&& old(socket)@.egress.len() > 0
            &&& length == old(socket)@.egress[0].len() as usize
            &&& seq![old(socket)@.egress[0]] + final(socket)@.egress == old(socket)@.egress
            &&& wake <==> old(socket)@.sender_waits
        },
        result matches Ok(None) ==> old(socket)@.egress.len() == 0 && final(socket)@ == old(socket)@,
        result is Err ==> final(socket)@ == old(socket)@ && (old(socket)@.unavailable || old(socket)@.egress[0].len()
            > old(output)@.len()),
{
    let queue = old(socket)@.egress;
    if result matches Ok(Some(_)) {
        assert(seq![queue[0]] + queue.skip(1) =~= queue);
    }
}

/// A receiver that finds nothing waits; without a buffer it is told so, and on a path that is
/// down that the network is.
pub proof fn law_receiver_waits_for_a_datagram(
    socket: &mut HostDatagramSocket,
    has_buffer: bool,
    output: &mut [u8],
    outcome: HostReceive,
)
    requires
        call_ensures(HostDatagramSocket::receive, (socket, has_buffer, output), outcome),
    ensures
        outcome is NetworkDown <==> old(socket)@.unavailable,
        outcome is NoBuffer <==> !old(socket)@.unavailable && !has_buffer,
        outcome is Pending <==> !old(socket)@.unavailable && has_buffer && old(socket)@.ingress.len() == 0,
        outcome is Pending ==> final(socket)@.receiver_waits,
        outcome is Received ==> final(socket)@.ingress.len() == old(socket)@.ingress.len() - 1,
        !(outcome is Received) ==> final(socket)@.ingress == old(socket)@.ingress && final(output)@ == old(output)@,
{
}

/// A path that goes down wakes whoever waits, once, and from then on carries nothing either
/// way.
pub proof fn law_path_goes_down_once(
    first: &mut HostDatagramSocket,
    wakes: Wakes,
    second: &mut HostDatagramSocket,
    wakes_then: Wakes,
    entering: &mut HostDatagramSocket,
    packet: &[u8],
    entered: Result<bool, HostDatagramError>,
    sending: &mut HostDatagramSocket,
    destination: SocketAddress,
    source: Option<IpAddress>,
    sent: HostSend,
    receiving: &mut HostDatagramSocket,
    has_buffer: bool,
    output: &mut [u8],
    received: HostReceive,
)
    requires
        !old(first)@.unavailable,
        call_ensures(HostDatagramSocket::mark_unavailable, (first,), wakes),
        old(second)@ == final(first)@,
        call_ensures(HostDatagramSocket::mark_unavailable, (second,), wakes_then),
        old(entering)@ == final(first)@,
        call_ensures(HostDatagramSocket::ingress_datagram, (entering, packet), entered),
        old(sending)@ == final(first)@,
        call_ensures(HostDatagramSocket::send, (sending, destination, source, None::<usize>, packet), sent),
        old(receiving)@ == final(first)@,
        call_ensures(HostDatagramSocket::receive, (receiving, has_buffer, output), received),
    ensures
        wakes.receiver == old(first)@.receiver_waits,
        wakes.sender == old(first)@.sender_waits,
        !wakes_then.receiver && !wakes_then.sender,
        final(second)@ == final(first)@,
        entered == Err::<bool, HostDatagramError>(HostDatagramError::Unavailable),
        sent is NetworkDown,
        received is NetworkDown,
{
}

/// A socket is made for every capacity and MTU above zero whose product can be counted; it is
/// empty, up, and between the two addresses that it was made for.
pub proof fn law_new_socket_is_empty(
    local: SocketAddress,
    peer: SocketAddress,
    packet_capacity: usize,
    mtu: usize,
    result: Result<HostDatagramSocket, HostDatagramError>,
)
    requires
        call_ensures(HostDatagramSocket::new, (local, peer, packet_capacity, mtu), result),
    ensures
        result is Ok <==> packet_capacity > 0 && mtu > 0 && packet_capacity * mtu <= usize::MAX,
        result matches Ok(socket) ==> {
            &&& socket@.local == local && socket@.peer == peer
            &&& socket@.mtu == mtu && socket@.capacity == packet_capacity
            &&& socket@.ingress.len() == 0 && socket@.egress.len() == 0
            &&& !socket@.unavailable && !socket@.receiver_waits && !socket@.sender_waits
        },
        packet_capacity == 0 ==> result == Err::<HostDatagramSocket, HostDatagramError>(
            HostDatagramError::ZeroCapacity,
        ),
        packet_capacity > 0 && mtu == 0 ==> result == Err::<HostDatagramSocket, HostDatagramError>(
            HostDatagramError::ZeroMtu,
        ),
{
}

} // verus!
