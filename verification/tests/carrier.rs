//! The TCP-shaped carrier, its packets, and what the raw-socket adapters decide.
use quicp::address::{IpAddress, SocketAddress};
use quicp::faketcp::carrier::FakeTcpCarrier;
use quicp::faketcp::checksum::{fold_checksum, internet_checksum};
use quicp::faketcp::cookie::{initial_sequence, issue_syn_cookie, sequence_from, verify_syn_cookie};
use quicp::faketcp::decode::decode_packet_view;
use quicp::faketcp::error::CarrierError;
use quicp::faketcp::flags::TcpFlags;
use quicp::faketcp::options::TcpOptions;
use quicp::faketcp::packet::FakeTcpPacket;
use quicp::faketcp::tuple::{CarrierDirection, FourTuple, SynDataMode};
use quicp::raw::batch::{receive_slots, received_length, sent_packets, wire_batch};
use quicp::raw::error::RawError;
use quicp::raw::filter::{tuple_filter, FilterInstruction};
use quicp::raw::poll::{InputEvent, RecvPoll, RecvStep};
use quicp::raw::receive::{
    reject_budget_exhausted, BatchReceiver, MAX_DECODE_REJECTS_PER_POLL, RAW_PACKET_BUFFER_BYTES,
};
use quicp::raw::ring::{next_frame, ring_frame, RingFrame, TP_STATUS_COPY, TP_STATUS_USER};
use quicp::raw::route::{arp_neighbor, best_route, next_hop, packet_route, PacketRoute};
use quicp::raw::send::{encode_next, BatchSender, RawSendMode, SendStep};
use quicp::raw::windivert::{
    build_filter, check_injected, check_library_name, check_library_place, check_opened, encode_segment, forwards,
    plan_segments, verify_driver, verify_library, verify_loaded_path, verify_sha256, FileIdentity, PacketReceiver,
    PacketStep, PathComponent,
};

const LOCALHOST: u32 = 0x7f00_0001;

fn v4(ip: u32, port: u16) -> SocketAddress {
    SocketAddress { ip: IpAddress::V4(ip), port, flow_info: 0, scope_id: 0 }
}

fn v6(ip: u128, port: u16) -> SocketAddress {
    SocketAddress { ip: IpAddress::V6(ip), port, flow_info: 0, scope_id: 0 }
}

fn loopback() -> FourTuple {
    FourTuple::new(v4(LOCALHOST, 40_001), v4(LOCALHOST, 44_443))
}

fn documentation() -> FourTuple {
    FourTuple::new(v4(0xc000_0201, 40_000), v4(0xc633_6401, 44_443))
}

#[test]
fn sequence_numbers_wrap_like_tcp() {
    let tuple = loopback();
    let mut carrier =
        FakeTcpCarrier::new_with_initial_sequence(tuple, SynDataMode::Disabled, u32::MAX - 1).expect("carrier");

    let first = carrier.encode_datagram(b"1234").expect("first packet");
    let second = carrier.encode_datagram(b"5678").expect("wrapped packet");
    let first = decode_packet_view(&first, None).expect("first view");
    let second = decode_packet_view(&second, None).expect("second view");
    assert_eq!(first.sequence, u32::MAX - 1);
    assert_eq!(second.sequence, 2);
}

#[test]
fn paired_sender_acknowledges_packets_decoded_by_receiver() {
    let tuple = loopback();
    let cookie = SynDataMode::Cookie([7; 16]);
    let mut client =
        FakeTcpCarrier::new(tuple.reverse(), CarrierDirection::ServerToClient, cookie).expect("client carrier");
    let (mut inbound, mut outbound) =
        FakeTcpCarrier::pair(tuple, CarrierDirection::ClientToServer, cookie).expect("server carriers");

    let syn = client.encode_syn(b"initial").expect("client SYN");
    inbound.decode_datagram_borrowed(&syn).expect("server receives SYN");
    outbound.follow(&inbound);
    let syn = decode_packet_view(&syn, None).expect("client SYN view");
    let syn_ack = outbound.encode_syn_ack(b"response").expect("server SYN-ACK");
    let syn_ack = decode_packet_view(&syn_ack, None).expect("server SYN-ACK view");

    assert_eq!(
        syn_ack.acknowledgment,
        syn.sequence
            .wrapping_add(u32::try_from(syn.payload.len()).expect("payload length"))
            .wrapping_add(1)
    );
}

#[test]
fn malformed_packet_budget_forces_a_scheduler_yield() {
    let mut budget = MAX_DECODE_REJECTS_PER_POLL;
    for _ in 1..MAX_DECODE_REJECTS_PER_POLL {
        assert!(!reject_budget_exhausted(&mut budget));
    }
    assert!(reject_budget_exhausted(&mut budget));
    assert!(reject_budget_exhausted(&mut budget));
}

#[test]
fn windivert_hash_check_accepts_only_the_expected_bytes() {
    let expected = [
        0xba, 0x78, 0x16, 0xbf, 0x8f, 0x01, 0xcf, 0xea, 0x41, 0x41, 0x40, 0xde, 0x5d, 0xae, 0x22, 0x23, 0xb0, 0x03,
        0x61, 0xa3, 0x96, 0x17, 0x7a, 0x9c, 0xb4, 0x10, 0xff, 0x61, 0xf2, 0x00, 0x15, 0xad,
    ];
    verify_sha256(b"abc", &expected).unwrap();
    assert_eq!(verify_sha256(b"abc", &[0; 32]), Err(RawError::Untrusted));
}

#[test]
fn filter_covers_both_directions_of_one_tuple() {
    let filter = build_filter(documentation()).expect("valid IPv4 tuple");
    assert!(filter.contains("outbound"));
    assert!(filter.contains("inbound"));
    assert!(filter.contains("192.0.2.1"));
    assert!(filter.contains("198.51.100.1"));
    assert!(filter.contains("40000"));
    assert!(filter.contains("44443"));
}

#[test]
fn filter_rejects_ipv6_until_the_adapter_supports_it() {
    let tuple = FourTuple::new(v6(1, 40_000), v6(2, 44_443));
    assert_eq!(build_filter(tuple), Err(RawError::Unsupported));
}

#[test]
fn packets_round_trip_over_both_address_families() {
    let pairs = [
        (v4(0xc000_0201, 40_000), v4(0xc633_6401, 443)),
        (v6(0x2001_0db8_0000_0000_0000_0000_0000_0001, 1), v6(0x2001_0db8_0000_0000_0000_0000_0000_0002, 65_535)),
    ];
    for (source, destination) in pairs {
        let packet = FakeTcpPacket {
            source,
            destination,
            sequence: 0x0102_0304,
            acknowledgment: 0xfffe_fdfc,
            flags: TcpFlags(TcpFlags::SYN | TcpFlags::ACK),
            window: 0x1234,
            options: TcpOptions::for_syn_with_mss(1400, Some(&[9; 16])),
            payload: b"datagram".to_vec(),
        };
        let bytes = packet.encode().expect("encoded packet");
        let decoded = FakeTcpPacket::decode(&bytes).expect("decoded packet");
        assert_eq!(decoded.source(), source);
        assert_eq!(decoded.destination(), destination);
        assert_eq!(decoded.sequence(), 0x0102_0304);
        assert_eq!(decoded.acknowledgment(), 0xfffe_fdfc);
        assert!(decoded.flags().is_syn() && decoded.flags().is_ack() && !decoded.flags().is_rst());
        assert_eq!(decoded.window(), 0x1234);
        assert_eq!(decoded.options().mss(), Some(1400));
        assert!(decoded.options().sack_permitted());
        assert_eq!(decoded.options().window_scale(), Some(7));
        assert_eq!(decoded.options().fast_open_cookie(), Some(&[9u8; 16][..]));
        assert_eq!(decoded.payload(), b"datagram");

        let mut exact = vec![0; bytes.len()];
        assert_eq!(packet.encode_into(&mut exact), Ok(bytes.len()));
        assert_eq!(exact, bytes);
        let mut short = vec![0; bytes.len() - 1];
        assert_eq!(
            packet.encode_into(&mut short),
            Err(CarrierError::OutputTooSmall { required: bytes.len(), available: bytes.len() - 1 })
        );
    }
}

#[test]
fn ipv4_packet_bytes_are_pinned() {
    let packet = FakeTcpPacket {
        source: v4(0xc000_0201, 40_000),
        destination: v4(0xc633_6401, 443),
        sequence: 1,
        acknowledgment: 2,
        flags: TcpFlags(TcpFlags::PSH | TcpFlags::ACK),
        window: 65_535,
        options: TcpOptions::default(),
        payload: b"hi".to_vec(),
    };
    let bytes = packet.encode().expect("encoded packet");
    assert_eq!(bytes.len(), 42);
    assert_eq!(&bytes[..4], &[0x45, 0, 0, 42]);
    assert_eq!(&bytes[6..10], &[0x40, 0, 64, 6]);
    assert_eq!(&bytes[12..20], &[192, 0, 2, 1, 198, 51, 100, 1]);
    assert_eq!(&bytes[20..36], &[0x9c, 0x40, 0x01, 0xbb, 0, 0, 0, 1, 0, 0, 0, 2, 0x50, 0x18, 0xff, 0xff]);
    assert_eq!(&bytes[40..], b"hi");
    assert_eq!(internet_checksum(&bytes[..20]), 0);
}

#[test]
fn damaged_packets_are_refused() {
    let mut carrier =
        FakeTcpCarrier::new_with_initial_sequence(documentation(), SynDataMode::Disabled, 5).expect("carrier");
    let good = carrier.encode_datagram(b"payload").expect("packet");
    assert!(decode_packet_view(&good, None).is_ok());
    assert!(matches!(decode_packet_view(&good[..19], None), Err(CarrierError::PacketTooShort)));

    let mut version = good.clone();
    version[0] = 0x55;
    assert!(matches!(decode_packet_view(&version, None), Err(CarrierError::UnsupportedIpVersion)));
    let mut header = good.clone();
    header[8] ^= 1;
    assert!(matches!(decode_packet_view(&header, None), Err(CarrierError::InvalidIpHeader)));
    let mut payload = good.clone();
    let last = payload.len() - 1;
    payload[last] ^= 1;
    assert!(matches!(decode_packet_view(&payload, None), Err(CarrierError::InvalidTcpHeader)));
}

#[test]
fn carrier_refuses_what_is_not_for_it() {
    let tuple = documentation();
    assert!(matches!(
        FakeTcpCarrier::new(
            FourTuple::new(v4(0, 1), v4(LOCALHOST, 2)),
            CarrierDirection::ClientToServer,
            SynDataMode::Disabled
        ),
        Err(CarrierError::InvalidTuple)
    ));
    assert!(matches!(
        FakeTcpCarrier::new_with_mtu(
            tuple,
            CarrierDirection::ClientToServer,
            SynDataMode::Disabled,
            1460,
            10
        ),
        Err(CarrierError::InvalidOuterMtu(10))
    ));
    assert!(matches!(
        FakeTcpCarrier::new_with_mtu(
            tuple,
            CarrierDirection::ClientToServer,
            SynDataMode::Disabled,
            2000,
            1500
        ),
        Err(CarrierError::InvalidMss { mss: 2000, .. })
    ));

    let mut sender =
        FakeTcpCarrier::new_with_initial_sequence(tuple, SynDataMode::Disabled, 9).expect("sender");
    let mut receiver =
        FakeTcpCarrier::new_with_initial_sequence(tuple.reverse(), SynDataMode::Disabled, 9).expect("receiver");
    assert!(matches!(sender.encode_syn(b"early"), Err(CarrierError::SynDataDisabled)));
    let packet = sender.encode_datagram(b"one").expect("packet");
    let decoded = receiver.decode_datagram(&packet).expect("datagram");
    assert_eq!(decoded.payload(), b"one");
    assert_eq!(decoded.sequence(), 9);
    assert!(!decoded.was_syn());
    assert_eq!(receiver.acknowledgment(), 12);
    assert!(matches!(sender.decode_datagram(&packet), Err(CarrierError::WrongTuple)));
    assert_eq!(sender.tuple(), tuple);
}

#[test]
fn syn_data_needs_the_right_cookie() {
    let tuple = documentation();
    let mut sender =
        FakeTcpCarrier::new_with_initial_sequence(tuple, SynDataMode::Cookie([1; 16]), 100).expect("sender");
    let mut wrong =
        FakeTcpCarrier::new_with_initial_sequence(tuple.reverse(), SynDataMode::Cookie([2; 16]), 1).expect("wrong");
    let mut right =
        FakeTcpCarrier::new_with_initial_sequence(tuple.reverse(), SynDataMode::Cookie([1; 16]), 1).expect("right");
    let syn = sender.encode_syn(b"early").expect("SYN");
    assert!(sender.sent_syn());
    assert!(matches!(wrong.decode_datagram(&syn), Err(CarrierError::SynCookieRejected)));
    let decoded = right.decode_datagram(&syn).expect("datagram");
    assert!(decoded.was_syn());
    assert_eq!(decoded.payload(), b"early");
    assert!(matches!(sender.encode_syn(b"again"), Err(CarrierError::InvalidState)));
}

#[test]
fn cookies_are_bound_to_secret_path_and_epoch() {
    let tuple = documentation();
    let cookie = issue_syn_cookie(b"secret", tuple, 7);
    assert_ne!(cookie, [0; 16]);
    assert!(verify_syn_cookie(b"secret", tuple, 7, &cookie));
    assert!(verify_syn_cookie(b"secret", tuple.reverse(), 7, &cookie));
    assert!(!verify_syn_cookie(b"other", tuple, 7, &cookie));
    assert!(!verify_syn_cookie(b"secret", tuple, 8, &cookie));
    assert!(!verify_syn_cookie(b"secret", loopback(), 7, &cookie));
    assert!(!verify_syn_cookie(b"secret", tuple, 7, &cookie[..15]));
}

#[test]
fn initial_sequences_depend_on_the_path_and_the_direction() {
    let tuple = documentation();
    let client = sequence_from(0x1234_5678, tuple, CarrierDirection::ClientToServer);
    assert_eq!(client, sequence_from(0x1234_5678, tuple, CarrierDirection::ClientToServer));
    assert_ne!(client, sequence_from(0x1234_5678, tuple, CarrierDirection::ServerToClient));
    assert_ne!(client, sequence_from(0x1234_5678, loopback(), CarrierDirection::ClientToServer));
    let drawn = (0..8)
        .map(|_| initial_sequence(tuple, CarrierDirection::ClientToServer).expect("randomness"))
        .collect::<Vec<_>>();
    assert!(drawn.iter().any(|value| *value != drawn[0]));
}

#[test]
fn options_round_trip_and_broken_ones_are_refused() {
    let options = TcpOptions::for_syn(Some(&[3; 8]));
    let bytes = options.encode().expect("options");
    assert_eq!(bytes.len() % 4, 0);
    let decoded = TcpOptions::decode(&bytes).expect("decoded options");
    assert_eq!(decoded.mss(), options.mss());
    assert_eq!(decoded.fast_open_cookie(), Some(&[3u8; 8][..]));
    assert!(TcpOptions::default().is_empty());
    assert!(matches!(TcpOptions::decode(&[2, 0]), Err(CarrierError::InvalidTcpOption)));
    assert!(matches!(TcpOptions::decode(&[2, 4, 1]), Err(CarrierError::InvalidTcpOption)));
}

#[test]
fn checksum_folds_carries() {
    assert_eq!(fold_checksum(0x1_ffff), 1);
    assert_eq!(internet_checksum(&[0x00, 0x01, 0xf2, 0x03, 0xf4, 0xf5, 0xf6, 0xf7]), !0xddf2);
    assert_eq!(internet_checksum(&[]), 0xffff);
}

fn run_filter(program: &[FilterInstruction], packet: &[u8]) -> u32 {
    let mut at = 0;
    let mut accumulator = 0u32;
    while at < program.len() {
        let instruction = program[at];
        let operand = instruction.operand as usize;
        match instruction.code {
            0x20 => {
                if operand + 4 > packet.len() {
                    return 0;
                }
                accumulator = u32::from_be_bytes(packet[operand..operand + 4].try_into().unwrap());
            }
            0x28 => {
                if operand + 2 > packet.len() {
                    return 0;
                }
                accumulator = u32::from(u16::from_be_bytes(packet[operand..operand + 2].try_into().unwrap()));
            }
            0x30 => {
                if operand >= packet.len() {
                    return 0;
                }
                accumulator = u32::from(packet[operand]);
            }
            0x54 => accumulator &= instruction.operand,
            0x15 => {
                at += usize::from(if accumulator == instruction.operand {
                    instruction.jump_true
                } else {
                    instruction.jump_false
                });
            }
            0x06 => return instruction.operand,
            _ => unreachable!(),
        }
        at += 1;
    }
    0
}

#[test]
fn socket_filter_keeps_the_peer_and_drops_the_rest() {
    let tuple = documentation();
    let program = tuple_filter(tuple).expect("filter");
    let mut peer =
        FakeTcpCarrier::new_with_initial_sequence(tuple.reverse(), SynDataMode::Disabled, 1).expect("peer");
    let packet = peer.encode_datagram(b"data").expect("packet");
    assert_ne!(run_filter(&program, &packet), 0);
    let mut own = FakeTcpCarrier::new_with_initial_sequence(tuple, SynDataMode::Disabled, 1).expect("own");
    let echoed = own.encode_datagram(b"data").expect("packet");
    assert_eq!(run_filter(&program, &echoed), 0);
    assert_eq!(run_filter(&program, &packet[..10]), 0);
    assert!(matches!(tuple_filter(FourTuple::new(v6(1, 2), v6(3, 4))), Err(RawError::Unsupported)));
}

fn receiver(packets: &[Vec<u8>]) -> BatchReceiver {
    let mut receive_buffer = vec![0; RAW_PACKET_BUFFER_BYTES * packets.len()];
    let mut batch_lengths = Vec::new();
    for (index, packet) in packets.iter().enumerate() {
        let start = index * RAW_PACKET_BUFFER_BYTES;
        receive_buffer[start..start + packet.len()].copy_from_slice(packet);
        batch_lengths.push(packet.len());
    }
    BatchReceiver {
        inbound: FakeTcpCarrier::new_with_initial_sequence(documentation().reverse(), SynDataMode::Disabled, 3)
            .expect("receiver"),
        receive_buffer,
        batch_count: packets.len(),
        batch_index: 0,
        batch_lengths,
        pending: None,
        decode_rejects: 0,
    }
}

#[test]
fn receiver_groups_equal_payloads_and_counts_rejects() {
    let mut sender =
        FakeTcpCarrier::new_with_initial_sequence(documentation(), SynDataMode::Disabled, 1).expect("sender");
    let packets = vec![
        sender.encode_datagram(b"aaaa").unwrap(),
        vec![0; 40],
        sender.encode_datagram(b"bbbb").unwrap(),
        sender.encode_datagram(b"longer").unwrap(),
    ];
    let mut batch = receiver(&packets);
    let mut budget = MAX_DECODE_REJECTS_PER_POLL;
    let mut slot = vec![0; 64];
    let meta = batch.fill_slot(&mut slot, 8, &mut budget).unwrap().expect("a slot");
    assert_eq!((meta.len, meta.stride), (8, 4));
    assert_eq!(&slot[..8], b"aaaabbbb");
    assert_eq!(batch.rejected_datagrams(), 1);
    assert_eq!(budget, MAX_DECODE_REJECTS_PER_POLL - 1);
    let meta = batch.fill_slot(&mut slot, 8, &mut budget).unwrap().expect("a slot");
    assert_eq!((meta.len, meta.stride), (6, 6));
    assert_eq!(&slot[..6], b"longer");
    assert!(batch.fill_slot(&mut slot, 8, &mut budget).unwrap().is_none());
}

#[test]
fn receive_polls_decide_between_waiting_and_returning() {
    assert_eq!(RecvPoll::begin(0, 0), Err(RawError::NoReceiveBuffer));
    let mut poll = RecvPoll::begin(2, 2).expect("a poll");
    assert_eq!(poll.after_input(InputEvent::NotReady), RecvStep::Pending);
    assert_eq!(poll.after_input(InputEvent::Failed), RecvStep::Fail);
    assert_eq!(poll.after_slot(true, 5), RecvStep::FillSlot);
    assert_eq!(poll.after_slot(true, 5), RecvStep::Return(2));
}

#[test]
fn sender_carries_every_segment_once() {
    let tuple = documentation();
    let mut outbound = FakeTcpCarrier::new_with_initial_sequence(tuple, SynDataMode::Cookie([4; 16]), 1).expect("outbound");
    let mut inbound =
        FakeTcpCarrier::new_with_initial_sequence(tuple.reverse(), SynDataMode::Cookie([4; 16]), 1).expect("inbound");
    let mut sender = BatchSender::new(tuple, false, 2);
    let contents = b"abcdefghij";
    sender.begin(tuple.destination, None, contents.len(), Some(4)).expect("a datagram");
    let mut carried = Vec::new();
    loop {
        sender.prepare(&mut outbound, contents).expect("a batch");
        let (storage, capacity, lengths, sent) = sender.batch();
        let mut count = 0;
        for index in sent..lengths.len() {
            let packet = &storage[index * capacity..index * capacity + lengths[index]];
            carried.push(inbound.decode_datagram(packet).expect("segment").payload().to_vec());
            count += 1;
        }
        if sender.after_send(count).expect("progress") == SendStep::Done {
            break;
        }
    }
    assert_eq!(carried, [b"abcd".to_vec(), b"efgh".to_vec(), b"ij".to_vec()]);

    let mut other = BatchSender::new(tuple, false, 2);
    assert_eq!(other.begin(tuple.source, None, 1, None), Err(RawError::DestinationMismatch));
    assert_eq!(
        other.begin(tuple.destination, Some(IpAddress::V4(1)), 1, None),
        Err(RawError::SourceMismatch)
    );
    assert_eq!(other.begin(tuple.destination, None, 1, Some(0)), Err(RawError::InvalidSegmentation));
}

#[test]
fn first_packet_of_a_cookie_carrier_is_a_syn() {
    let tuple = documentation();
    let mut outbound =
        FakeTcpCarrier::new_with_initial_sequence(tuple, SynDataMode::Cookie([5; 16]), 1).expect("outbound");
    let mut output = vec![0; 256];
    let length = encode_next(&mut outbound, false, b"first", &mut output).expect("packet");
    assert!(decode_packet_view(&output[..length], None).expect("view").flags.is_syn());
    let length = encode_next(&mut outbound, false, b"second", &mut output).expect("packet");
    assert!(!decode_packet_view(&output[..length], None).expect("view").flags.is_syn());
}

#[test]
fn wire_ranges_follow_the_send_mode() {
    assert_eq!(wire_batch(300, 100, &[40, 60, 50], 1, 10, RawSendMode::Packet), Ok(vec![(100, 160), (200, 250)]));
    assert_eq!(wire_batch(300, 100, &[40, 60, 50], 0, 2, RawSendMode::Ip), Ok(vec![(20, 40), (120, 160)]));
    assert_eq!(wire_batch(300, 100, &[10], 0, 1, RawSendMode::Ip), Err(RawError::MissingIpv4Header));
    assert_eq!(wire_batch(30, 100, &[40], 0, 1, RawSendMode::Packet), Err(RawError::PacketExceedsSendStorage));
    assert_eq!(sent_packets(&[(0, 40), (100, 160)], &[40, 60]), Ok(2));
    assert_eq!(sent_packets(&[(0, 40), (100, 160)], &[40, 59]), Err(RawError::PartiallySent));
    assert_eq!(
        receive_slots(2 * RAW_PACKET_BUFFER_BYTES, 2),
        Ok(vec![(0, RAW_PACKET_BUFFER_BYTES), (RAW_PACKET_BUFFER_BYTES, 2 * RAW_PACKET_BUFFER_BYTES)])
    );
    assert_eq!(receive_slots(10, 1), Err(RawError::ReceiveStorageTooSmall));
    assert_eq!(received_length(60, false), 60);
    assert_eq!(received_length(60, true), 0);
}

#[test]
fn ring_frames_are_checked_before_use() {
    assert_eq!(ring_frame(0, 10, 10, 66, 128), RingFrame::Empty);
    assert_eq!(ring_frame(TP_STATUS_USER, 100, 100, 66, 128), RingFrame::Broken);
    assert_eq!(
        ring_frame(TP_STATUS_USER, 62, 62, 66, 128),
        RingFrame::Packet { start: 66, end: 128, copied: None }
    );
    assert_eq!(
        ring_frame(TP_STATUS_USER | TP_STATUS_COPY, 62, 90, 66, 128),
        RingFrame::Packet { start: 66, end: 128, copied: Some(90) }
    );
    assert_eq!(next_frame(0, 2), 1);
    assert_eq!(next_frame(1, 2), 0);
}

fn letters(text: &str) -> Vec<char> {
    text.chars().collect()
}

#[test]
fn routes_prefer_the_longest_mask() {
    let table = letters(
        "Iface\tDestination\tGateway\tFlags\tRefCnt\tUse\tMetric\tMask\tMTU\tWindow\tIRTT\n\
         eth0\t00000000\t0102000A\t0003\t0\t0\t0\t00000000\t0\t0\t0\n\
         eth1\t0002000A\t00000000\t0001\t0\t0\t0\t00FFFFFF\t0\t0\t0\n",
    );
    let destination = 0x0a00_0205;
    let near = best_route(&table, destination, false);
    let far = best_route(&table, 0x0808_0808, false);
    assert_eq!(far.expect("default route").interface, letters("eth0"));
    assert!(near.is_ok());
    assert!(matches!(best_route(&letters("Iface\n"), destination, false), Err(RawError::NoRoute)));
    assert_eq!(next_hop(7, 0), 7);
    assert_eq!(next_hop(7, 9), 9);
    assert_eq!(packet_route(v4(LOCALHOST, 1)), Ok(PacketRoute::Loopback));
    assert_eq!(packet_route(v4(0x0808_0808, 1)), Ok(PacketRoute::Routed(0x0808_0808)));
    assert_eq!(packet_route(v6(1, 1)), Err(RawError::Unsupported));
}

#[test]
fn neighbors_are_found_by_address_and_interface() {
    let table = letters(
        "IP address       HW type     Flags       HW address            Mask     Device\n\
         10.0.2.1         0x1         2           52:54:00:12:35:02     *        eth0\n\
         10.0.2.1         0x1         2           52:54:00:12:35:03     *        eth1\n\
         10.0.2.3         0x1         0           52:54:00:12:35:04     *        eth1\n",
    );
    assert_eq!(arp_neighbor(&table, &letters("eth1"), 0x0a00_0201), Ok(vec![0x52, 0x54, 0, 0x12, 0x35, 0x03]));
    assert_eq!(arp_neighbor(&table, &letters("eth2"), 0x0a00_0201), Err(RawError::NoNeighbor));
    assert_eq!(arp_neighbor(&table, &letters("eth1"), 0x0a00_0202), Err(RawError::NoNeighbor));
    assert_eq!(arp_neighbor(&table, &letters("eth1"), 0x0a00_0203), Err(RawError::NoNeighbor));
}

#[test]
fn library_names_and_places_fail_closed() {
    assert_eq!(check_library_name(&[PathComponent::Normal]), Ok(()));
    assert_eq!(check_library_place(true, true, true), Ok(()));
    assert_eq!(
        check_library_name(&[PathComponent::Special, PathComponent::Normal]),
        Err(RawError::InvalidLibraryName)
    );
    assert_eq!(check_library_name(&[]), Err(RawError::InvalidLibraryName));
    assert_eq!(check_library_place(true, false, true), Err(RawError::Untrusted));
    assert_eq!(check_library_place(true, true, false), Err(RawError::Untrusted));

    let held = FileIdentity { volume: 1, identifier: [2; 16] };
    assert_eq!(verify_loaded_path(true, held, held), Ok(()));
    assert_eq!(verify_loaded_path(false, held, held), Err(RawError::Untrusted));
    let other = FileIdentity { identifier: [3; 16], ..held };
    assert_eq!(verify_loaded_path(true, other, held), Err(RawError::Untrusted));
}

#[test]
fn windows_adapter_refuses_what_it_does_not_trust() {
    assert_eq!(verify_library(b"not the library"), Err(RawError::Untrusted));
    assert_eq!(verify_driver(b"not the driver"), Err(RawError::Untrusted));
    assert_eq!(check_opened(true, true, false, false), Ok(()));
    assert_eq!(check_opened(false, false, true, true), Err(RawError::Untrusted));
    assert!(forwards(10, 10));
    assert!(!forwards(11, 10));
    assert_eq!(check_injected(4, 4), Ok(()));
    assert_eq!(check_injected(3, 4), Err(RawError::PartiallySent));
}

#[test]
fn windows_adapter_carries_segments() {
    let tuple = documentation();
    let mut outbound = FakeTcpCarrier::new_with_initial_sequence(tuple, SynDataMode::Cookie([4; 16]), 1).expect("outbound");
    let mut receiver = PacketReceiver {
        inbound: FakeTcpCarrier::new_with_initial_sequence(tuple.reverse(), SynDataMode::Cookie([4; 16]), 1).expect("inbound"),
        decode_rejects: 0,
    };
    let contents = b"abcdefg";
    let plan = plan_segments(tuple, tuple.destination, None, contents.len(), Some(4)).expect("plan");
    assert_eq!((plan.size, plan.count), (4, 2));
    let mut pending = Vec::new();
    let mut output = vec![0; 16];
    let mut rejects = MAX_DECODE_REJECTS_PER_POLL - 2;
    let length = encode_segment(&mut outbound, false, contents, plan, 1, &mut pending).expect("segment");
    assert_eq!(receiver.receive(&pending[..length], &mut output, &mut rejects), PacketStep::Filled(3));
    assert_eq!(&output[..3], b"efg");
    assert_eq!(receiver.receive(&[0; 30], &mut output, &mut rejects), PacketStep::Again);
    assert_eq!(receiver.receive(&[0; 30], &mut output, &mut rejects), PacketStep::Yield);
    assert_eq!(receiver.decode_rejects, 2);
}

#[test]
fn options_are_equal_where_their_content_is() {
    for cookie in [None, Some(&[3u8; 8][..]), Some(&[4u8; 16][..]), Some(&[5u8; 20][..]), Some(&[][..])] {
        assert_eq!(TcpOptions::for_syn(cookie), TcpOptions::for_syn_with_mss(1460, cookie));
    }
    let options = TcpOptions::for_syn_with_mss(1400, Some(&[7; 5]));
    let kept = options.fast_open_cookie.expect("cookie");
    assert_eq!(kept.length, 5);
    assert_eq!(kept.bytes, [7, 7, 7, 7, 7, 0, 0, 0, 0, 0, 0, 0, 0, 0, 0, 0]);
    let bytes = options.encode().expect("options");
    assert!(bytes.len() <= 40);
    assert_eq!(TcpOptions::decode(&bytes), Ok(options));

    let long = TcpOptions::for_syn(Some(&[1; 17]));
    assert_eq!(long.encode(), Err(CarrierError::InvalidTcpOption));
    let every = [2, 4, 5, 180, 4, 2, 8, 10, 0, 0, 0, 1, 0, 0, 0, 2, 3, 3, 7, 34, 4, 8, 9, 0];
    let read = TcpOptions::decode(&every).expect("options");
    assert_eq!(read.timestamps(), Some((1, 2)));
    assert_eq!(TcpOptions::decode(&read.encode().expect("bytes")), Ok(read));
}

fn sample_packet(source: SocketAddress, destination: SocketAddress) -> FakeTcpPacket {
    FakeTcpPacket {
        source,
        destination,
        sequence: 0x0102_0304,
        acknowledgment: 0xfffe_fdfc,
        flags: TcpFlags(0xff),
        window: 0x1234,
        options: TcpOptions::for_syn_with_mss(1400, Some(&[9; 3])),
        payload: b"a datagram".to_vec(),
    }
}

#[test]
fn packets_that_were_read_are_written_and_read_again() {
    for (source, destination) in [
        (v4(0xc000_0201, 40_000), v4(0xc633_6401, 443)),
        (v6(0x2001_0db8 << 96 | 1, 40_000), v6(0x2001_0db8 << 96 | 2, 443)),
    ] {
        let packet = sample_packet(source, destination);
        let read = FakeTcpPacket::decode(&packet.encode().expect("bytes")).expect("packet");
        assert_eq!(read, packet);
        assert_eq!(FakeTcpPacket::decode(&read.clone().encode().expect("bytes")), Ok(read));
    }
}

#[test]
fn every_flipped_bit_of_an_ipv4_packet_is_refused() {
    let good = sample_packet(v4(0xc000_0201, 40_000), v4(0xc633_6401, 443)).encode().expect("bytes");
    for at in 1..good.len() {
        for bit in 0..8 {
            let mut damaged = good.clone();
            damaged[at] ^= 1 << bit;
            assert!(FakeTcpPacket::decode(&damaged).is_err(), "byte {at}, bit {bit}");
        }
    }
    let mut changed = good;
    changed[41] = !changed[41];
    assert!(FakeTcpPacket::decode(&changed).is_err());
}

#[test]
fn flipped_bits_of_an_ipv6_packet_are_refused_where_something_covers_them() {
    let good = sample_packet(v6(0x2001_0db8 << 96 | 1, 40_000), v6(0x2001_0db8 << 96 | 2, 443)).encode().expect("bytes");
    for at in (4..good.len()).filter(|at| *at != 7) {
        for bit in 0..8 {
            let mut damaged = good.clone();
            damaged[at] ^= 1 << bit;
            assert!(FakeTcpPacket::decode(&damaged).is_err(), "byte {at}, bit {bit}");
        }
    }
    let mut hops = good;
    hops[7] ^= 1;
    assert!(FakeTcpPacket::decode(&hops).is_ok());
}

#[test]
fn full_ring_polls_ask_the_system_before_they_return() {
    let mut poll = RecvPoll::begin(1, 2).expect("a poll");
    assert_eq!(poll.after_ring_input(InputEvent::Received(1)), RecvStep::FillSlot);
    assert_eq!(poll.after_ring_slot(true, 5), RecvStep::AwaitInput);
    assert_eq!(poll.after_ring_input(InputEvent::Received(1)), RecvStep::AwaitInput);
    assert_eq!(poll.after_ring_input(InputEvent::NotReady), RecvStep::Return(1));
    assert_eq!(poll.after_ring_input(InputEvent::WouldBlock), RecvStep::Return(1));
    assert_eq!(poll.after_ring_input(InputEvent::Failed), RecvStep::Fail);

    let mut poll = RecvPoll::begin(2, 2).expect("a poll");
    assert_eq!(poll.after_ring_slot(true, 5), RecvStep::FillSlot);
    assert_eq!(poll.after_ring_slot(false, 0), RecvStep::Yield(1));
}

#[test]
fn flags_are_joined() {
    let mut flags = TcpFlags(TcpFlags::SYN) | TcpFlags(TcpFlags::ACK);
    assert_eq!(flags.bits(), 0x12);
    flags |= TcpFlags(TcpFlags::RST);
    assert_eq!(flags.bits(), 0x16);
    assert!(flags.is_rst());
}
