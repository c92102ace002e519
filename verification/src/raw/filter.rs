//! The packet filters that keep one path's packets from everything else.
use crate::address::IpAddress;
use crate::endian;
use crate::faketcp::carrier;
use crate::faketcp::carrier::CarrierModel;
use crate::faketcp::tuple::FourTuple;
use crate::raw::error::RawError;
use vstd::prelude::*;

verus! {

/// One instruction of a classic BPF program.
#[derive(Clone, Copy, Debug, PartialEq, Eq, Structural)]
pub struct FilterInstruction {
    /// The operation.
    pub code: u16,
    /// How many instructions to skip where a comparison holds.
    pub jump_true: u8,
    /// How many instructions to skip where a comparison does not hold.
    pub jump_false: u8,
    /// The operand.
    pub operand: u32,
}

/// What a BPF program returns for a packet, from the instruction `at` on and with
/// `accumulator` loaded: how many bytes of the packet are let through. A load from behind
/// the end of the packet ends the program with zero. The six operations are those that
/// `tuple_filter` uses.
pub open spec fn filtered(program: Seq<FilterInstruction>, at: int, accumulator: u32, packet: Seq<u8>) -> u32
    decreases
            if at < program.len() {
                program.len() - at
            } else {
                0
            },
{
    if at < 0 || at >= program.len() {
        0
    } else {
        let code = program[at].code;
        let operand = program[at].operand;
        if code == 0x20 {
            if operand + 4 <= packet.len() {
                filtered(program, at + 1, endian::be32_at(packet, operand as int), packet)
            } else {
                0
            }
        } else if code == 0x28 {
            if operand + 2 <= packet.len() {
                filtered(program, at + 1, endian::be16_at(packet, operand as int) as u32, packet)
            } else {
                0
            }
        } else if code == 0x30 {
            if operand < packet.len() {
                filtered(program, at + 1, packet[operand as int] as u32, packet)
            } else {
                0
            }
        } else if code == 0x54 {
            filtered(program, at + 1, accumulator & operand, packet)
        } else if code == 0x15 {
            if accumulator == operand {
                filtered(program, at + 1 + program[at].jump_true, accumulator, packet)
            } else {
                filtered(program, at + 1 + program[at].jump_false, accumulator, packet)
            }
        } else if code == 0x06 {
            operand
        } else {
            0
        }
    }
}

/// Whether a packet is TCP over IPv4 without IP options, from the peer of a path, with
/// the SYN or the PSH flag set.
pub open spec fn from_peer(peer: u32, peer_port: u16, local: u32, local_port: u16, packet: Seq<u8>) -> bool {
    &&& packet.len() >= 34
    &&& packet[0] as u32 & 0xf0 == 0x40
    &&& packet[9] == 6
    &&& endian::be32_at(packet, 12) == peer
    &&& endian::be32_at(packet, 16) == local
    &&& endian::be16_at(packet, 20) == peer_port
    &&& endian::be16_at(packet, 22) == local_port
    &&& packet[33] as u32 & 0x0a != 0
}

/// One instruction.
pub open spec fn instruction_of(code: u16, jump_true: u8, jump_false: u8, operand: u32) -> FilterInstruction {
    FilterInstruction { code, jump_true, jump_false, operand }
}

/// The program that lets the peer's packets through.
pub open spec fn program_of(peer: u32, peer_port: u16, local: u32, local_port: u16) -> Seq<FilterInstruction> {
    seq![
        instruction_of(0x30, 0, 0, 0),
        instruction_of(0x54, 0, 0, 0xf0),
        instruction_of(0x15, 0, 14, 0x40),
        instruction_of(0x30, 0, 0, 9),
        instruction_of(0x15, 0, 12, 6),
        instruction_of(0x20, 0, 0, 12),
        instruction_of(0x15, 0, 10, peer),
        instruction_of(0x20, 0, 0, 16),
        instruction_of(0x15, 0, 8, local),
        instruction_of(0x28, 0, 0, 20),
        instruction_of(0x15, 0, 6, peer_port as u32),
        instruction_of(0x28, 0, 0, 22),
        instruction_of(0x15, 0, 4, local_port as u32),
        instruction_of(0x30, 0, 0, 33),
        instruction_of(0x54, 0, 0, 0x0a),
        instruction_of(0x15, 1, 0, 0),
        instruction_of(0x06, 0, 0, u32::MAX),
        instruction_of(0x06, 0, 0, 0),
    ]
}

fn instruction(code: u16, jump_true: u8, jump_false: u8, operand: u32) -> (made: FilterInstruction)
    ensures
        made == instruction_of(code, jump_true, jump_false, operand),
{
    FilterInstruction { code, jump_true, jump_false, operand }
}

/// The program that lets the packets through that the peer of an IPv4 path sends here.
pub fn tuple_filter(given: FourTuple) -> (result: Result<Vec<FilterInstruction>, RawError>)
    ensures
        match (given.destination.ip, given.source.ip) {
            (IpAddress::V4(peer), IpAddress::V4(local)) => result matches Ok(program) && program@ == program_of(
                peer,
                given.destination.port,
                local,
                given.source.port,
            ),
            _ => result matches Err(error) && error == RawError::Unsupported,
        },
{
    match (given.destination.ip, given.source.ip) {
        (IpAddress::V4(peer), IpAddress::V4(local)) => {
            let program: Vec<FilterInstruction> = vec![
                instruction(0x30, 0, 0, 0),
                instruction(0x54, 0, 0, 0xf0),
                instruction(0x15, 0, 14, 0x40),
                instruction(0x30, 0, 0, 9),
                instruction(0x15, 0, 12, 6),
                instruction(0x20, 0, 0, 12),
                instruction(0x15, 0, 10, peer),
                instruction(0x20, 0, 0, 16),
                instruction(0x15, 0, 8, local),
                instruction(0x28, 0, 0, 20),
                instruction(0x15, 0, 6, given.destination.port as u32),
                instruction(0x28, 0, 0, 22),
                instruction(0x15, 0, 4, given.source.port as u32),
                instruction(0x30, 0, 0, 33),
                instruction(0x54, 0, 0, 0x0a),
                instruction(0x15, 1, 0, 0),
                instruction(0x06, 0, 0, u32::MAX),
                instruction(0x06, 0, 0, 0),
            ];
            assert(program@ =~= program_of(peer, given.destination.port, local, given.source.port));
            Ok(program)
        },
        _ => Err(RawError::Unsupported),
    }
}

/// The filter of a path lets a packet through whole exactly where it comes from the peer
/// of that path.
pub proof fn law_filter_keeps_the_peer(peer: u32, peer_port: u16, local: u32, local_port: u16, packet: Seq<u8>)
    ensures
        filtered(program_of(peer, peer_port, local, local_port), 0, 0, packet) == (if from_peer(
            peer,
            peer_port,
            local,
            local_port,
            packet,
        ) {
            u32::MAX
        } else {
            0
        }),
{
    let p = program_of(peer, peer_port, local, local_port);
    assert(forall|a: u32| #[trigger] filtered(p, 17, a, packet) == 0);
    assert(forall|a: u32| #[trigger] filtered(p, 16, a, packet) == u32::MAX);
    assert forall|a: u32| #[trigger]
        filtered(p, 15, a, packet) == (if a == 0 {
            0
        } else {
            u32::MAX
        }) by {
        assert(filtered(p, 16, a, packet) == u32::MAX && filtered(p, 17, a, packet) == 0);
    }
    assert forall|a: u32| #[trigger]
        filtered(p, 14, a, packet) == (if a & 0x0a == 0 {
            0
        } else {
            u32::MAX
        }) by {
        assert(filtered(p, 14, a, packet) == filtered(p, 15, a & 0x0a, packet));
    }
    let flags = packet.len() >= 34 && packet[33] as u32 & 0x0a != 0;
    assert forall|a: u32| #[trigger]
        filtered(p, 13, a, packet) == (if flags {
            u32::MAX
        } else {
            0
        }) by {
        if packet.len() >= 34 {
            assert(filtered(p, 13, a, packet) == filtered(p, 14, packet[33] as u32, packet));
        }
    }
    let ports = flags && endian::be16_at(packet, 20) == peer_port && endian::be16_at(packet, 22) == local_port;
    assert forall|a: u32| #[trigger]
        filtered(p, 9, a, packet) == (if ports {
            u32::MAX
        } else {
            0
        }) by {
        let first = endian::be16_at(packet, 20) as u32;
        let second = endian::be16_at(packet, 22) as u32;
        assert(filtered(p, 12, second, packet) == if second == local_port {
            filtered(p, 13, second, packet)
        } else {
            filtered(p, 17, second, packet)
        });
        if packet.len() >= 24 {
            assert(filtered(p, 11, first, packet) == filtered(p, 12, second, packet));
        }
        assert(filtered(p, 10, first, packet) == if first == peer_port {
            filtered(p, 11, first, packet)
        } else {
            filtered(p, 17, first, packet)
        });
        if packet.len() >= 22 {
            assert(filtered(p, 9, a, packet) == filtered(p, 10, first, packet));
        }
    }
    let addresses = ports && endian::be32_at(packet, 12) == peer && endian::be32_at(packet, 16) == local;
    assert forall|a: u32| #[trigger]
        filtered(p, 5, a, packet) == (if addresses {
            u32::MAX
        } else {
            0
        }) by {
        let first = endian::be32_at(packet, 12);
        let second = endian::be32_at(packet, 16);
        assert(filtered(p, 8, second, packet) == if second == local {
            filtered(p, 9, second, packet)
        } else {
            filtered(p, 17, second, packet)
        });
        if packet.len() >= 20 {
            assert(filtered(p, 7, first, packet) == filtered(p, 8, second, packet));
        }
        assert(filtered(p, 6, first, packet) == if first == peer {
            filtered(p, 7, first, packet)
        } else {
            filtered(p, 17, first, packet)
        });
        if packet.len() >= 16 {
            assert(filtered(p, 5, a, packet) == filtered(p, 6, first, packet));
        }
    }
    if packet.len() >= 10 {
        let version = packet[0] as u32 & 0xf0;
        let protocol = packet[9] as u32;
        assert(filtered(p, 4, protocol, packet) == if protocol == 6 {
            filtered(p, 5, protocol, packet)
        } else {
            filtered(p, 17, protocol, packet)
        });
        assert(filtered(p, 3, version, packet) == filtered(p, 4, protocol, packet));
        assert(filtered(p, 2, version, packet) == if version == 0x40 {
            filtered(p, 3, version, packet)
        } else {
            filtered(p, 17, version, packet)
        });
        assert(filtered(p, 1, packet[0] as u32, packet) == filtered(p, 2, version, packet));
        assert(filtered(p, 0, 0, packet) == filtered(p, 1, packet[0] as u32, packet));
    } else if packet.len() >= 1 {
        let version = packet[0] as u32 & 0xf0;
        assert(filtered(p, 3, version, packet) == 0);
        assert(filtered(p, 2, version, packet) == if version == 0x40 {
            filtered(p, 3, version, packet)
        } else {
            filtered(p, 17, version, packet)
        });
        assert(filtered(p, 1, packet[0] as u32, packet) == filtered(p, 2, version, packet));
        assert(filtered(p, 0, 0, packet) == filtered(p, 1, packet[0] as u32, packet));
    }
}

/// The filter of an IPv4 path loses nothing that the path's carrier accepts, as long as
/// the packet has no IP options and a SYN or PSH flag, as every packet of a carrier has.
pub proof fn law_filter_loses_no_datagram(state: CarrierModel, peer: u32, local: u32, packet: Seq<u8>)
    requires
        state.tuple.destination.ip == IpAddress::V4(peer),
        state.tuple.source.ip == IpAddress::V4(local),
        packet[0] % 16 == 5,
        carrier::datagram_in(state, packet) matches Ok(view) && (view.flags.0 as u32) & 0x0a != 0,
    ensures
        from_peer(peer, state.tuple.destination.port, local, state.tuple.source.port, packet),
{
    reveal(carrier::datagram_in);
    let first = packet[0];
    let segment = packet.skip(20);
    assert(first / 16 == 4 ==> first as u32 & 0xf0 == 0x40) by (bit_vector);
    assert(packet[0] % 16 * 4 == 20);
    assert(segment[13] == packet[33]);
    assert(segment[0] == packet[20] && segment[1] == packet[21]);
    assert(segment[2] == packet[22] && segment[3] == packet[23]);
}

}
