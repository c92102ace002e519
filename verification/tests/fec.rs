//! Forward error correction: the field, the coefficients, and the decoder with its memory.
use std::collections::BTreeMap;

use bytes::Bytes;
use quicp::fec::decoder::{canonical_recovered, DecodedSource, Decoder, KnownSource, RecoveredBatch, SourceStatus};
use quicp::fec::matrix::FecError;
use quicp::fec::room::capacity_granted;
use quicp::fec::symbol::{coefficient, repair_symbol};
use quicp::gf256::{inverse, multiply};
use quicp::recovery::{RecoveryCharge, RecoveryMemoryBudget};

const HEADER: usize = 10;

/// A source symbol of the tests: its identifier, the length of its payload, room for more
/// fields, the payload. The storage comes in steps of sixteen bytes.
fn source(symbol_id: u32, payload: &[u8]) -> Bytes {
    let mut encoded = Vec::with_capacity((HEADER + payload.len()).next_multiple_of(16));
    encoded.extend_from_slice(&symbol_id.to_be_bytes());
    encoded.push(payload.len() as u8);
    encoded.resize(HEADER, 0);
    encoded.extend_from_slice(payload);
    Bytes::from(encoded)
}

fn decode(bytes: &[u8]) -> DecodedSource {
    if bytes.len() < HEADER || bytes.len() < HEADER + usize::from(bytes[4]) {
        return DecodedSource::Rejected;
    }
    DecodedSource::Symbol {
        symbol_id: u32::from_be_bytes([bytes[0], bytes[1], bytes[2], bytes[3]]),
        consumed: HEADER + usize::from(bytes[4]),
    }
}

/// A decoder together with the budget that it is charged to.
struct Charged {
    budget: RecoveryMemoryBudget,
    decoder: Decoder,
}

impl Charged {
    fn new(max_symbols: usize, max_rows: usize, max_symbol_bytes: usize) -> Self {
        Self::with_limit(max_symbols, max_rows, max_symbol_bytes, u32::MAX)
    }

    fn with_limit(max_symbols: usize, max_rows: usize, max_symbol_bytes: usize, limit: u32) -> Self {
        Charged {
            budget: RecoveryMemoryBudget::new(1, limit),
            decoder: Decoder::with_budget(max_symbols, max_rows, max_symbol_bytes),
        }
    }

    fn add_source(&mut self, id: u32, bytes: Bytes, work: usize) -> Result<RecoveredBatch, FecError> {
        self.decoder.add_source(&mut self.budget, id, bytes, work, &decode)
    }

    fn add_repair(
        &mut self,
        first: u32,
        span: u16,
        repair_id: u32,
        seed: u32,
        coded: &[u8],
        work: usize,
    ) -> Result<RecoveredBatch, FecError> {
        self.decoder.add_repair(&mut self.budget, first, span, repair_id, seed, coded, work, &decode)
    }

    fn commit_recovered(&mut self, id: u32, bytes: Bytes) -> Result<(), FecError> {
        let charge = self.budget.reserve(bytes.len()).ok_or(FecError::MemoryCapacity)?;
        self.decoder.commit_recovered_precharged(&mut self.budget, id, bytes, charge)
    }

    fn drop_decoder(mut self) -> u64 {
        self.decoder.discard(&mut self.budget);
        self.budget.used()
    }
}

fn rows_of(decoder: &Charged) -> Vec<(Vec<(u32, u8)>, Vec<u8>)> {
    decoder.decoder.rows().iter().map(|row| (row.coefficients.clone(), row.data.clone())).collect()
}

fn items(batch: &RecoveredBatch) -> Vec<(u32, Bytes)> {
    batch.items.iter().map(|item| (item.symbol_id, item.bytes.clone())).collect()
}

#[test]
fn field_inverse_round_trips_every_nonzero_value() {
    for value in 1..=u8::MAX {
        assert_eq!(multiply(value, inverse(value)), 1);
    }
}

#[test]
fn field_products_are_pinned() {
    assert_eq!(multiply(0, 0x53), 0);
    assert_eq!(multiply(1, 0x53), 0x53);
    assert_eq!(multiply(2, 0x80), multiply(0x80, 2));
    assert_ne!(multiply(2, 0x80), 0);
}

#[test]
fn coefficient_vectors_are_pinned() {
    assert_eq!(coefficient(0, 0, 0), 0x01);
    assert_eq!(coefficient(7, 100, 10), 0xef);
    assert_eq!(coefficient(7, 100, 11), 0x2c);
    assert_eq!(coefficient(7, 101, 10), 0x91);
    assert_eq!(coefficient(7, 101, 11), 0x8d);
    assert_eq!(coefficient(u32::MAX, u32::MAX, u32::MAX), 0x30);
}

#[test]
fn decoder_recovers_two_missing_sources() {
    let sources = [source(10, b"one!"), source(11, b"two!")];
    let repair_a = repair_symbol(10, 100, 7, &sources).unwrap();
    let repair_b = repair_symbol(10, 101, 7, &sources).unwrap();
    let mut decoder = Charged::new(512, 512, 1200);
    assert!(decoder.add_repair(10, 2, 100, 7, &repair_a, 20_000).unwrap().is_empty());
    let recovered = decoder.add_repair(10, 2, 101, 7, &repair_b, 20_000).unwrap();
    assert_eq!(items(&recovered), [(10, sources[0].clone()), (11, sources[1].clone())]);
}

#[test]
fn decoder_rejects_over_span_and_budget_without_mutating_rows() {
    let mut decoder = Charged::new(512, 2, 1200);
    assert!(matches!(decoder.add_repair(0, 257, 1, 1, &[1], 10), Err(FecError::InvalidSpan)));
    assert!(matches!(decoder.add_repair(0, 2, 1, 1, &[1; 64], 1), Err(FecError::WorkBudget)));
    assert_eq!(decoder.decoder.state_counts().1, 0);

    decoder.add_repair(0, 2, 1, 1, &[1; 64], 20_000).unwrap();
    let rows = rows_of(&decoder);
    assert!(matches!(decoder.add_source(0, source(0, b"source"), 1), Err(FecError::WorkBudget)));
    assert_eq!(rows_of(&decoder), rows);
}

#[test]
fn decoder_rejects_a_repair_beyond_row_capacity() {
    let mut decoder = Charged::new(2, 1, 32);
    decoder.add_repair(0, 2, 1, 1, &[1; 8], 2_000).unwrap();
    assert!(matches!(decoder.add_repair(2, 2, 2, 1, &[2; 8], 2_000), Err(FecError::RowCapacity)));
    assert_eq!(decoder.decoder.state_counts().1, 1);
}

#[test]
fn decoder_source_memory_is_bounded_reused_and_released() {
    let first = source(1, b"first");
    let second = source(2, b"second");
    let limit = u32::try_from(first.len().max(second.len())).unwrap();
    let mut decoder = Charged::with_limit(1, 1, 64, limit);
    decoder.add_source(1, first, 2_000).unwrap();
    decoder.add_source(2, second.clone(), 2_000).unwrap();
    assert_eq!(decoder.budget.used(), second.len() as u64);

    assert!(matches!(
        decoder.add_source(3, source(3, b"payload-too-large"), 2_000),
        Err(FecError::MemoryCapacity)
    ));
    assert_eq!(decoder.decoder.known_source(2), Some(&second[..]));
    assert_eq!(decoder.decoder.known_source(3), None);
    assert_eq!(decoder.drop_decoder(), 0);
}

#[test]
fn decoder_exact_scratch_budget_succeeds_and_minus_one_is_atomic() {
    let measured = Decoder::with_budget(4, 4, 32);
    let exact = measured.scratch_memory_bytes(1, 2, 0).unwrap();

    let mut decoder = Charged::with_limit(4, 4, 32, u32::try_from(exact).unwrap());
    decoder.add_repair(0, 2, 1, 1, &[1; 8], 2_000).unwrap();
    assert_eq!(decoder.drop_decoder(), 0);

    let mut decoder = Charged::with_limit(4, 4, 32, u32::try_from(exact - 1).unwrap());
    assert!(matches!(decoder.add_repair(0, 2, 1, 1, &[1; 8], 2_000), Err(FecError::MemoryCapacity)));
    assert_eq!(decoder.decoder.state_counts().1, 0);
    assert_eq!(decoder.budget.used(), 0);
    assert_eq!(decoder.drop_decoder(), 0);
}

#[test]
fn recovered_batch_holds_transition_credit_until_state_is_replaced() {
    let mut budget = RecoveryMemoryBudget::new(1, 100);
    let old_state = budget.reserve(30).unwrap();
    let scratch = budget.reserve(70).unwrap();
    let mut batch = RecoveredBatch::new(Vec::new(), scratch, 0, &mut budget).unwrap();
    assert_eq!(budget.used(), 100);

    let mut competing = Decoder::with_budget(1, 1, 1);
    assert!(matches!(
        competing.add_source(&mut budget, 1, Bytes::from_static(b"x"), 16, &decode),
        Err(FecError::MemoryCapacity)
    ));

    budget.discard(old_state);
    batch.shrink_after_state_transition(&mut budget);
    competing.add_source(&mut budget, 1, Bytes::from_static(b"x"), 16, &decode).unwrap();
    batch.discard(&mut budget);
    competing.discard(&mut budget);
    assert_eq!(budget.used(), 0);
}

#[test]
fn a_batch_that_does_not_fit_gives_its_scratch_memory_back() {
    let mut budget = RecoveryMemoryBudget::new(1, 100);
    let scratch = budget.reserve(20).unwrap();
    assert!(matches!(RecoveredBatch::new(Vec::new(), scratch, 101, &mut budget), Err(FecError::MemoryCapacity)));
    assert_eq!(budget.used(), 0);
    let scratch = budget.reserve(20).unwrap();
    let batch = RecoveredBatch::new(Vec::new(), scratch, 50, &mut budget).unwrap();
    assert_eq!((budget.used(), batch.charge.bytes), (50, 0));
}

#[test]
fn a_source_is_committed_where_what_it_retains_fits() {
    let kept = |retained_bytes| KnownSource { symbol_id: 4, bytes: Bytes::from_static(b"four"), retained_bytes };
    let mut decoder = Charged::with_limit(2, 2, 64, 40);
    let charge = decoder.budget.reserve(10).unwrap();
    assert_eq!(
        decoder.decoder.commit_known(&mut decoder.budget, kept(41), charge),
        Err(FecError::MemoryCapacity)
    );
    assert_eq!((decoder.budget.used(), decoder.decoder.state_counts()), (0, (0, 0)));
    let charge = decoder.budget.reserve(10).unwrap();
    assert_eq!(decoder.decoder.commit_known(&mut decoder.budget, kept(40), charge), Ok(()));
    assert_eq!((decoder.budget.used(), decoder.decoder.state_counts()), (40, (1, 0)));
    assert_eq!(decoder.drop_decoder(), 0);
}

#[test]
fn recovered_batch_holds_the_shared_budget_until_consumed() {
    let sources = [source(10, b"one!"), source(11, b"two!")];
    let repair_a = repair_symbol(10, 100, 7, &sources).unwrap();
    let repair_b = repair_symbol(10, 101, 7, &sources).unwrap();

    let mut measured = Charged::new(8, 8, 1_200);
    measured.add_repair(10, 2, 100, 7, &repair_a, 20_000).unwrap();
    let limit = u32::try_from(
        measured.budget.used()
            + u64::try_from(measured.decoder.scratch_memory_bytes(1, 2, 0).unwrap()).unwrap(),
    )
    .unwrap();
    assert_eq!(measured.drop_decoder(), 0);

    let mut decoder = Charged::with_limit(8, 8, 1_200, limit);
    assert!(decoder.add_repair(10, 2, 100, 7, &repair_a, 20_000).unwrap().is_empty());
    let recovered = decoder.add_repair(10, 2, 101, 7, &repair_b, 20_000).unwrap();
    let blocked_bytes = usize::try_from(u64::from(limit) - decoder.budget.used() + 1).unwrap();
    let mut competing = Decoder::with_budget(1, 1, blocked_bytes);
    assert!(matches!(
        competing.add_source(&mut decoder.budget, 99, Bytes::from(vec![1; blocked_bytes]), 2_000, &decode),
        Err(FecError::MemoryCapacity)
    ));
    recovered.discard(&mut decoder.budget);
    competing
        .add_source(&mut decoder.budget, 99, Bytes::from(vec![1; blocked_bytes]), 2_000, &decode)
        .unwrap();
    competing.discard(&mut decoder.budget);
    assert_eq!(decoder.drop_decoder(), 0);
}

#[test]
fn recovered_charge_transfer_releases_exactly_once() {
    let sources = [source(10, b"one!"), source(11, b"two!")];
    let repair_a = repair_symbol(10, 100, 7, &sources).unwrap();
    let repair_b = repair_symbol(10, 101, 7, &sources).unwrap();
    let mut decoder = Charged::new(8, 8, 1_200);
    decoder.add_repair(10, 2, 100, 7, &repair_a, 20_000).unwrap();
    let mut recovered = decoder.add_repair(10, 2, 101, 7, &repair_b, 20_000).unwrap();

    while let Some(source) = recovered.pop() {
        let charge = recovered.take_retained_charge(source.retained_bytes).unwrap();
        decoder
            .decoder
            .commit_recovered_precharged(&mut decoder.budget, source.symbol_id, source.bytes, charge)
            .unwrap();
    }
    recovered.discard(&mut decoder.budget);
    assert_eq!(decoder.drop_decoder(), 0);
}

#[test]
fn recovered_source_does_not_retain_padded_repair_storage() {
    let encoded = source(7, b"short");
    let mut padded = encoded.to_vec();
    padded.resize(1_200, 0);
    let decoded = vec![decode(&padded)];
    let symbols = vec![(7, padded)];
    let recovered = canonical_recovered(&symbols, &decoded).unwrap();
    assert_eq!(recovered[0].bytes, encoded);
    assert_ne!(recovered[0].bytes.as_ptr(), symbols[0].1.as_ptr());
}

#[test]
fn direct_source_does_not_retain_shared_packet_storage() {
    let encoded = source(8, b"short");
    let mut packet = encoded.to_vec();
    packet.resize(1_200, 0);
    let packet = Bytes::from(packet);
    let source = packet.slice(..encoded.len());
    let source_pointer = source.as_ptr();
    let mut decoder = Charged::new(4, 4, 1_200);
    decoder.add_source(8, source, 2_000).unwrap();
    assert_ne!(decoder.decoder.known_source(8).unwrap().as_ptr(), source_pointer);
}

#[test]
fn direct_source_reuses_unique_storage_and_accounts_its_capacity() {
    let encoded = source(8, b"short");
    let mut packet = Vec::with_capacity(1_200);
    packet.extend_from_slice(&encoded);
    let source = Bytes::from(packet);
    let source_pointer = source.as_ptr();
    let mut decoder = Charged::with_limit(4, 4, 1_200, 1_200);
    decoder.add_source(8, source, 2_000).unwrap();
    assert_eq!(decoder.decoder.known_source(8).unwrap().as_ptr(), source_pointer);
    assert_eq!(decoder.budget.used(), 1_200);
    assert_eq!(decoder.drop_decoder(), 0);
}

#[test]
fn decoder_recycles_evicted_storage_for_shared_sources() {
    let first = source(1, b"first");
    let recycled_pointer = first.as_ptr();
    let second = source(2, b"other");
    let mut decoder = Charged::new(1, 1, 64);
    decoder.add_source(1, first, 2_000).unwrap();
    decoder.add_source(2, second.clone(), 2_000).unwrap();
    assert_eq!(decoder.decoder.known_source(2).unwrap().as_ptr(), recycled_pointer);
    assert_eq!(decoder.decoder.known_source(2).unwrap(), &second[..]);
}

#[test]
fn source_after_repair_recovers_a_shorter_missing_symbol() {
    let sources = [source(7, b"short"), source(8, b"much-longer")];
    let repair = repair_symbol(7, 42, 9, &sources).unwrap();
    let mut decoder = Charged::new(512, 512, 1200);
    assert!(decoder.add_repair(7, 2, 42, 9, &repair, 20_000).unwrap().is_empty());
    let recovered = decoder.add_source(8, sources[1].clone(), 20_000).unwrap();
    assert_eq!(recovered.items.len(), 1);
    assert_eq!(recovered.items[0].symbol_id, 7);
    assert_eq!(recovered.items[0].bytes, sources[0]);
    for (id, bytes) in items(&recovered) {
        decoder.commit_recovered(id, bytes).unwrap();
    }
    let short_repair = repair_symbol(7, 43, 9, &sources[..1]).unwrap();
    assert!(decoder.add_repair(7, 1, 43, 9, &short_repair, 20_000).unwrap().is_empty());
}

#[test]
fn known_window_evicts_by_arrival_across_identifier_wrap() {
    let mut decoder = Charged::new(2, 2, 32);
    for id in [u32::MAX, 0, 1] {
        decoder.add_source(id, source(id, b"x"), 2_000).unwrap();
    }
    assert!(decoder.decoder.known_source(u32::MAX).is_none());
    assert!(decoder.decoder.known_source(0).is_some());
    assert!(decoder.decoder.known_source(1).is_some());
}

#[test]
fn apparent_wrap_does_not_bypass_duplicate_validation() {
    let mut decoder = Charged::new(4, 4, 32);
    decoder.add_source(0, source(0, b"first"), 2_000).unwrap();
    decoder.add_source(u32::MAX, source(u32::MAX, b"last"), 2_000).unwrap();
    assert!(matches!(
        decoder.add_source(0, source(0, b"other"), 2_000),
        Err(FecError::ContradictoryRepair)
    ));
    assert_eq!(decoder.decoder.state_counts().0, 2);
}

#[test]
fn duplicate_source_is_classified_before_delivery_reservation() {
    let encoded = source(7, b"source");
    let mut decoder = Charged::new(4, 4, 64);
    assert_eq!(decoder.decoder.source_status(7, &encoded), Ok(SourceStatus::New));
    decoder.add_source(7, encoded.clone(), 2_000).unwrap();
    assert_eq!(decoder.decoder.source_status(7, &encoded), Ok(SourceStatus::Duplicate));
    assert_eq!(
        decoder.decoder.source_status(7, &source(7, b"changed")),
        Err(FecError::ContradictoryRepair)
    );
    assert_eq!(decoder.decoder.source_status(8, &source(8, b"later")), Ok(SourceStatus::New));
}

#[test]
fn unadmitted_recovery_does_not_evict_known_history() {
    let sources = [source(1, b"known"), source(2, b"recovered")];
    let repair = repair_symbol(1, 7, 3, &sources).unwrap();
    let mut decoder = Charged::new(1, 2, 1200);
    decoder.add_source(1, sources[0].clone(), 20_000).unwrap();
    let recovered = decoder.add_repair(1, 2, 7, 3, &repair, 20_000).unwrap();
    assert_eq!(recovered.items[0].symbol_id, 2);
    assert_eq!(recovered.items[0].bytes, sources[1]);
    assert!(decoder.decoder.known_source(1).is_some());
    assert!(decoder.decoder.known_source(2).is_none());
}

#[test]
fn decoder_recovers_across_identifier_wrap() {
    let sources = [source(u32::MAX, b"last"), source(0, b"first")];
    let repair_a = repair_symbol(u32::MAX, 100, 7, &sources).unwrap();
    let repair_b = repair_symbol(u32::MAX, 101, 7, &sources).unwrap();
    let mut decoder = Charged::new(512, 512, 1200);
    assert!(decoder.add_repair(u32::MAX, 2, 100, 7, &repair_a, 20_000).unwrap().is_empty());
    let mut recovered = decoder.add_repair(u32::MAX, 2, 101, 7, &repair_b, 20_000).unwrap();
    recovered.items.sort_unstable_by_key(|source| source.symbol_id);
    assert_eq!(items(&recovered), [(0, sources[1].clone()), (u32::MAX, sources[0].clone())]);
}

#[test]
fn reordered_sources_and_repairs_recover_a_burst_gap() {
    let sources = (0..8u8)
        .map(|id| source(40 + u32::from(id), &vec![id; usize::from(id) + 3]))
        .collect::<Vec<_>>();
    let repairs = (100..104)
        .map(|repair_id| repair_symbol(40, repair_id, 17, &sources).unwrap())
        .collect::<Vec<_>>();
    let mut decoder = Charged::new(512, 512, 1200);
    for (repair_id, repair) in (100..104).zip(&repairs) {
        decoder.add_repair(40, 8, repair_id, 17, repair, 200_000).unwrap();
    }

    let mut recovered = Vec::new();
    for index in [7usize, 0, 5, 2, 1, 6] {
        let batch = decoder
            .add_source(40 + u32::try_from(index).unwrap(), sources[index].clone(), 200_000)
            .unwrap();
        for (id, bytes) in items(&batch) {
            decoder.commit_recovered(id, bytes).unwrap();
        }
        recovered.extend(items(&batch));
    }
    recovered.sort_unstable_by_key(|(id, _)| *id);
    for (id, bytes) in &recovered {
        assert_eq!(bytes, &sources[usize::try_from(*id - 40).unwrap()]);
    }
    let recovered = recovered.into_iter().collect::<BTreeMap<_, _>>();
    for id in [43, 44] {
        assert_eq!(recovered.get(&id), Some(&sources[usize::try_from(id - 40).unwrap()]));
    }
}

#[test]
fn deterministic_random_loss_recovers_despite_repair_loss() {
    let sources = (0..32u32).map(|id| source(100 + id, &id.to_be_bytes())).collect::<Vec<_>>();
    let mut random = 0x4d59_5df4_d0f3_3173u64;
    let mut missing = Vec::new();
    let mut decoder = Charged::new(512, 512, 1200);
    for index in (0..sources.len()).rev() {
        random = random.wrapping_mul(6_364_136_223_846_793_005).wrapping_add(1);
        if random >> 61 == 0 {
            missing.push(index);
        } else {
            decoder
                .add_source(100 + u32::try_from(index).unwrap(), sources[index].clone(), 200_000)
                .unwrap();
        }
    }
    assert!(missing.len() >= 2, "fixed channel must erase multiple sources");

    let mut recovered = Vec::new();
    for ordinal in 0..(missing.len() * 3) {
        if ordinal % 3 == 1 {
            continue;
        }
        let repair_id = 1_000 + u32::try_from(ordinal).unwrap();
        let repair = repair_symbol(100, repair_id, 17, &sources).unwrap();
        let batch = decoder.add_repair(100, 32, repair_id, 17, &repair, 500_000).unwrap();
        for (id, bytes) in items(&batch) {
            decoder.commit_recovered(id, bytes).unwrap();
        }
        recovered.extend(items(&batch));
    }
    recovered.sort_unstable_by_key(|(id, _)| *id);
    missing.sort_unstable();
    assert_eq!(recovered.len(), missing.len());
    for ((id, bytes), index) in recovered.into_iter().zip(missing) {
        assert_eq!(id, 100 + u32::try_from(index).unwrap());
        assert_eq!(bytes, sources[index]);
    }
}

#[test]
fn contradictory_repair_is_refused() {
    let sources = [source(1, b"left"), source(2, b"wrong")];
    let mut repair = repair_symbol(1, 7, 3, &sources).unwrap();
    let mut decoder = Charged::new(4, 4, 64);
    decoder.add_source(1, sources[0].clone(), 20_000).unwrap();
    decoder.add_source(2, sources[1].clone(), 20_000).unwrap();
    repair[0] ^= 1;
    let used = decoder.budget.used();
    assert!(matches!(
        decoder.add_repair(1, 2, 7, 3, &repair, 20_000),
        Err(FecError::ContradictoryRepair)
    ));
    assert_eq!(decoder.budget.used(), used);
}

#[test]
fn symbols_of_a_wrong_size_are_refused() {
    let mut decoder = Charged::new(4, 4, 8);
    assert!(matches!(
        decoder.add_source(1, Bytes::from_static(b""), 100),
        Err(FecError::InvalidSymbolSize)
    ));
    assert!(matches!(
        decoder.add_source(1, Bytes::from_static(b"123456789"), 100),
        Err(FecError::InvalidSymbolSize)
    ));
    assert!(matches!(decoder.add_repair(0, 2, 1, 1, &[1; 9], 2_000), Err(FecError::InvalidSymbolSize)));
    assert!(matches!(decoder.add_repair(0, 0, 1, 1, &[1; 8], 2_000), Err(FecError::InvalidSpan)));
}

#[test]
fn memory_is_conserved_by_sources_and_repairs() {
    let sources = [source(10, b"one!"), source(11, b"two!")];
    let repair_a = repair_symbol(10, 100, 7, &sources).unwrap();
    let repair_b = repair_symbol(10, 101, 7, &sources).unwrap();
    let mut decoder = Charged::new(8, 8, 64);
    let first = decoder.add_repair(10, 2, 100, 7, &repair_a, 20_000).unwrap();
    assert_eq!(u128::from(decoder.budget.used()), decoder.decoder.held_bytes() + first.charge.bytes as u128);
    first.discard(&mut decoder.budget);
    let second = decoder.add_repair(10, 2, 101, 7, &repair_b, 20_000).unwrap();
    assert_eq!(u128::from(decoder.budget.used()), decoder.decoder.held_bytes() + second.charge.bytes as u128);
    second.discard(&mut decoder.budget);
    assert_eq!(decoder.drop_decoder(), 0);
}

#[test]
fn charges_are_parted_and_handed_over() {
    let mut budget = RecoveryMemoryBudget::new(9, 100);
    let mut charge = budget.reserve(60).unwrap();
    assert!(budget.reserve(41).is_none());
    assert!(budget.grow(&mut charge, 100));
    assert!(!budget.grow(&mut charge, 101));
    let part = charge.split(40).unwrap();
    assert_eq!(part, RecoveryCharge { owner: 9, bytes: 40 });
    assert!(charge.split(61).is_none());
    assert!(charge.transfer(10));
    assert!(!charge.transfer(51));
    assert_eq!(charge.bytes, 50);
    budget.discard(part);
    assert_eq!(budget.used(), 60);
}

#[test]
fn dispatch_memory_is_held_beside_the_batch() {
    let mut budget = RecoveryMemoryBudget::new(1, 100);
    let charge = budget.reserve(10).unwrap();
    let mut batch = RecoveredBatch { items: Vec::new(), retained_bytes: 10, charge };
    assert_eq!(batch.reserve_dispatch(&mut budget, 30), Ok(()));
    assert_eq!(budget.used(), 40);
    assert_eq!(batch.reserve_dispatch(&mut budget, 91), Err(FecError::MemoryCapacity));
    assert_eq!(batch.reserve_dispatch(&mut budget, usize::MAX), Err(FecError::MemoryCapacity));
    let dispatch = batch.take_dispatch_charge(30).unwrap();
    assert_eq!(dispatch.bytes, 30);
    assert_eq!(batch.charge.bytes, 10);
    assert_eq!(batch.take_dispatch_charge(11), Err(FecError::MemoryCapacity));
    assert_eq!(budget.used(), 40);
}

#[test]
fn sources_that_the_equations_leave_open_are_not_recovered() {
    let sources = [source(0, b"one"), source(1, b"two"), source(2, b"six")];
    let first = repair_symbol(0, 5, 9, &sources).unwrap();
    let second = repair_symbol(0, 6, 9, &sources).unwrap();
    let mut decoder = Charged::new(64, 8, 64);
    assert!(decoder.add_repair(0, 3, 5, 9, &first, 20_000).unwrap().is_empty());
    assert!(decoder.add_repair(0, 3, 6, 9, &second, 20_000).unwrap().is_empty());
    let recovered = decoder.add_source(1, sources[1].clone(), 20_000).unwrap();
    let mut found: Vec<u32> = items(&recovered).iter().map(|(id, _)| *id).collect();
    found.sort_unstable();
    assert_eq!(found, [0, 2]);
}

#[test]
fn a_charge_of_another_budget_is_refused_and_not_given_back_here() {
    let mut decoder = Charged::new(8, 8, 1_200);
    let held = decoder.budget.reserve(100).unwrap();
    let mut other = RecoveryMemoryBudget::new(2, u32::MAX);
    let foreign = other.reserve(64).unwrap();
    assert_eq!(
        decoder.decoder.commit_recovered_precharged(&mut decoder.budget, 4, source(4, b"four"), foreign),
        Err(FecError::MemoryCapacity)
    );
    assert_eq!(decoder.budget.used(), 100);
    assert_eq!(decoder.decoder.state_counts(), (0, 0));
    assert_eq!(
        decoder.decoder.commit_recovered_precharged(&mut decoder.budget, 4, Bytes::new(), held),
        Err(FecError::InvalidSymbolSize)
    );
    assert_eq!(decoder.budget.used(), 0);
}

#[test]
fn room_is_granted_where_it_is_exactly_what_was_wanted() {
    assert_eq!(capacity_granted(16, 16), Ok(()));
    assert_eq!(capacity_granted(17, 16), Err(FecError::MemoryCapacity));
    assert_eq!(capacity_granted(15, 16), Err(FecError::MemoryCapacity));
}
