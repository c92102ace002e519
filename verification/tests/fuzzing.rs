//! The dispatch of fuzz inputs.
use quicp::faketcp::error::CarrierError;
use quicp::fec::decoder::DecodedSource;
use quicp::fuzzing::{fuzz_decoder, protocol, FuzzCase};

fn decode(_bytes: &[u8]) -> DecodedSource {
    DecodedSource::Rejected
}

fn input(tag: u8, data: &[u8]) -> Vec<u8> {
    let mut input = vec![tag];
    input.extend_from_slice(data);
    input
}

#[test]
fn first_byte_selects_the_decoder() {
    assert!(protocol(&[], &decode).is_none());
    assert!(matches!(protocol(&input(0, b"x"), &decode), Some(FuzzCase::Control(data)) if data == b"x"));
    assert!(matches!(protocol(&input(10, b"x"), &decode), Some(FuzzCase::Source(data)) if data == b"x"));
    assert!(matches!(protocol(&input(2, b"x"), &decode), Some(FuzzCase::Repair(data)) if data == b"x"));
    assert!(matches!(protocol(&input(3, b"x"), &decode), Some(FuzzCase::Token(data)) if data == b"x"));
    assert!(matches!(
        protocol(&input(8, b"x"), &decode),
        Some(FuzzCase::FakeTcp(Err(CarrierError::PacketTooShort)))
    ));
}

#[test]
fn acknowledgments_are_cut_into_ranges() {
    let mut data = Vec::new();
    for value in [1u64, 2, 3, 4, 5, 6] {
        data.extend_from_slice(&value.to_be_bytes());
    }
    data.push(0);
    let Some(FuzzCase::AckRanges(acknowledged)) = protocol(&input(4, &data), &decode) else {
        panic!("another case");
    };
    assert_eq!((acknowledged.contiguous, acknowledged.sent_offset), (1, 2));
    assert_eq!(acknowledged.ranges, [(3, 4), (5, 6)]);
    let Some(FuzzCase::AckRanges(acknowledged)) = protocol(&input(4, &data[..7]), &decode) else {
        panic!("another case");
    };
    assert_eq!((acknowledged.contiguous, acknowledged.sent_offset), (0, 0));
}

#[test]
fn records_are_cut_from_the_data() {
    let data = vec![3; 150];
    let Some(FuzzCase::Replay(_, records)) = protocol(&input(5, &data), &decode) else {
        panic!("another case");
    };
    let lengths = records.iter().map(|record| (record.offset, record.bytes.len())).collect::<Vec<_>>();
    assert_eq!(lengths, [(0, 64), (64, 64), (128, 22)]);
    let Some(FuzzCase::Reassembly(records, end)) = protocol(&input(6, &data), &decode) else {
        panic!("another case");
    };
    let lengths = records.iter().map(|record| (record.offset, record.bytes.len())).collect::<Vec<_>>();
    assert_eq!(lengths, [(24, 71), (24, 71), (24, 5)]);
    assert_eq!(end, 150);
}

#[test]
fn decoder_stays_within_its_bounds() {
    let data = (0..4200).map(|at| (at % 251) as u8).collect::<Vec<_>>();
    let Some(FuzzCase::Decoder(known, rows)) = protocol(&input(7, &data), &decode) else {
        panic!("another case");
    };
    assert!(known > 0 && known <= 32);
    assert!(rows <= 32);
}

#[test]
fn decoder_keeps_the_source_of_each_piece() {
    assert_eq!(fuzz_decoder(&[], &decode), (0, 0));
    let (known, rows) = fuzz_decoder(&[3; 40], &decode);
    assert_eq!(known, 1);
    assert!(rows <= 1);
}
