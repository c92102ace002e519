//! Stateless SYN cookies and the derivation of initial sequence numbers.
use crate::address;
use crate::address::SocketAddress;
use crate::crypto;
use crate::endian;
use crate::faketcp::error::CarrierError;
use crate::faketcp::tuple;
use crate::faketcp::tuple::{CarrierDirection, FourTuple};
use crate::fec::room::extend_bytes;
use vstd::prelude::*;

verus! {

/// An address and a port as bytes: the IP version, the octets, the port.
pub open spec fn address_bytes(socket: SocketAddress) -> Seq<u8> {
    seq![
        if socket.ip is V4 {
            4u8
        } else {
            6u8
        },
    ] + address::octets(socket.ip) + endian::be16(socket.port)
}

/// The order of a tuple that both of its ends agree on: the lower end first.
pub open spec fn ordered(given: FourTuple) -> FourTuple {
    if address::precedes(given.source, given.destination) {
        given
    } else {
        tuple::reversed(given)
    }
}

/// The message that a SYN cookie authenticates.
pub open spec fn cookie_message(given: FourTuple, epoch: u64) -> Seq<u8> {
    address_bytes(ordered(given).source) + address_bytes(ordered(given).destination) + endian::be64(epoch)
}

/// The SYN cookie of a path in an epoch.
pub open spec fn cookie_of(secret: Seq<u8>, given: FourTuple, epoch: u64) -> Seq<u8> {
    crypto::hmac_sha256_of(secret, cookie_message(given, epoch)).take(16)
}

/// The bytes that tell the sequence spaces of paths and directions apart.
pub open spec fn sequence_message(given: FourTuple, direction: CarrierDirection) -> Seq<u8> {
    address_bytes(given.source) + address_bytes(given.destination) + seq![
        match direction {
            CarrierDirection::ClientToServer => 0u8,
            CarrierDirection::ServerToClient => 1u8,
        },
    ]
}

/// The initial sequence number that goes with a random number.
pub open spec fn sequence_of(random: u32, given: FourTuple, direction: CarrierDirection) -> u32 {
    random ^ crypto::crc32c_of(sequence_message(given, direction))
}

/// Appends an address and a port.
fn append_address(output: &mut Vec<u8>, socket: SocketAddress)
    ensures
        final(output)@ == old(output)@ + address_bytes(socket),
{
    let version: u8 = if socket.ip.is_ipv4() {
        4
    } else {
        6
    };
    output.push(version);
    let octets: Vec<u8> = socket.ip.to_octets();
    extend_bytes(output, octets.as_slice());
    extend_bytes(output, endian::to_be16(socket.port).as_slice());
    assert(output@ =~= old(output)@ + address_bytes(socket));
}

/// Orders a four-tuple so both path ends derive the same SYN cookie.
pub fn cookie_tuple(given: FourTuple) -> (result: FourTuple)
    ensures
        result == ordered(given),
{
    if given.source.precedes(&given.destination) {
        given
    } else {
        given.reverse()
    }
}

/// What the code of a cookie is taken over.
#[verifier::spinoff_prover]
#[verifier::rlimit(60)]
fn cookie_input(given: FourTuple, epoch: u64) -> (message: Vec<u8>)
    ensures
        message@ == cookie_message(given, epoch),
        message@.len() <= 64,
{
    let first: FourTuple = cookie_tuple(given);
    let mut message: Vec<u8> = Vec::new();
    append_address(&mut message, first.source);
    append_address(&mut message, first.destination);
    extend_bytes(&mut message, endian::to_be64(epoch).as_slice());
    assert(message@ =~= cookie_message(given, epoch));
    message
}

/// Issues a stateless 16-byte SYN cookie bound to a path tuple and epoch.
///
/// The HMAC input is direction-independent: a client `A -> B` tuple and the server's
/// `B -> A` view produce the same cookie.
pub fn issue_syn_cookie(secret: &[u8], given: FourTuple, epoch: u64) -> (cookie: [u8; 16])
    requires
        secret@.len() <= crypto::MAX_DIGEST_INPUT,
    ensures
        cookie@ == cookie_of(secret@, given, epoch),
{
    let message: Vec<u8> = cookie_input(given, epoch);
    let tag: Vec<u8> = crypto::hmac_sha256(secret, message.as_slice());
    let mut cookie: [u8; 16] = [0; 16];
    let mut at: usize = 0;
    while at < 16
        invariant
            at <= 16,
            tag@.len() == 32,
            forall|i: int| 0 <= i < at ==> cookie@[i] == tag@[i],
        decreases 16 - at,
    {
        cookie[at] = tag[at];
        at += 1;
    }
    assert(cookie@ =~= cookie_of(secret@, given, epoch));
    cookie
}

/// Verifies a SYN cookie without maintaining per-client handshake state.
pub fn verify_syn_cookie(secret: &[u8], given: FourTuple, epoch: u64, cookie: &[u8]) -> (valid: bool)
    requires
        secret@.len() <= crypto::MAX_DIGEST_INPUT,
    ensures
        valid == (cookie@ == cookie_of(secret@, given, epoch)),
        valid ==> cookie@.len() == 16,
{
    let expected: [u8; 16] = issue_syn_cookie(secret, given, epoch);
    crypto::constant_time_equal(cookie, expected.as_slice())
}

/// The initial sequence number that goes with a random number.
pub fn sequence_from(random: u32, given: FourTuple, direction: CarrierDirection) -> (sequence: u32)
    ensures
        sequence == sequence_of(random, given, direction),
{
    let mut message: Vec<u8> = Vec::new();
    append_address(&mut message, given.source);
    append_address(&mut message, given.destination);
    message.push(direction.bit());
    assert(message@ =~= sequence_message(given, direction));
    random ^ crypto::crc32c(message.as_slice())
}

/// Whether these are the random bytes that the system gave when it was asked, or none where
/// it had none.
pub closed spec fn drawn(random: Option<[u8; 4]>) -> bool {
    call_ensures(crypto::random_bytes, (), random)
}

/// Whether a sequence number goes with random bytes that the system gave.
pub open spec fn sequence_drawn(sequence: u32, given: FourTuple, direction: CarrierDirection) -> bool {
    exists|bytes: [u8; 4]| #[trigger]
        drawn(Some(bytes)) && sequence == sequence_of(endian::be32_at(bytes@, 0), given, direction)
}

/// Draws an initial sequence number. The random number behind it is the system's, which
/// may have none to give.
pub fn initial_sequence(given: FourTuple, direction: CarrierDirection) -> (result: Result<u32, CarrierError>)
    ensures
        match result {
            Ok(sequence) => sequence_drawn(sequence, given, direction),
            Err(error) => error == CarrierError::Randomness && drawn(None),
        },
{
    match crypto::random_bytes() {
        Some(bytes) => {
            let random: u32 = endian::read_be32(bytes[0], bytes[1], bytes[2], bytes[3]);
            assert(drawn(Some(bytes)));
            Ok(sequence_from(random, given, direction))
        },
        None => Err(CarrierError::Randomness),
    }
}

/// Both ends of a path derive the same cookie.
pub proof fn law_cookie_is_direction_independent(secret: Seq<u8>, given: FourTuple, epoch: u64)
    ensures
        cookie_of(secret, given, epoch) == cookie_of(secret, tuple::reversed(given), epoch),
{
    let back = tuple::reversed(given);
    if address::precedes(given.source, given.destination) && address::precedes(back.source, back.destination) {
        assert(given.source.ip == given.destination.ip && given.source.port == given.destination.port);
        assert(address_bytes(given.source) == address_bytes(given.destination));
    }
}

/// A cookie that was issued verifies, for either end of the path, and no other does.
pub proof fn law_issued_cookie_verifies(secret: Seq<u8>, given: FourTuple, epoch: u64, cookie: Seq<u8>)
    ensures
        cookie == cookie_of(secret, given, epoch) <==> cookie == cookie_of(secret, tuple::reversed(given), epoch),
{
    law_cookie_is_direction_independent(secret, given, epoch);
}

}
