//! The directory of synthetic addresses and its journal.
use quicp::fakeip::directory::{Allocation, Appended, FakeIpDirectory};
use quicp::fakeip::error::DirectoryError;
use quicp::fakeip::journal::{check_header, journal_extent, verify_permissions};
use quicp::fakeip::pool::Ipv4Pool;
use quicp::fakeip::record::{decode_record, encode_record, header, RECORD_LEN};

const POOL: Ipv4Pool = Ipv4Pool { network: 0xc612_0000, broadcast: 0xc612_0007 };
const ENDPOINT: u32 = 0xc612_0001;

fn parse(host: &str) -> Option<Vec<u8>> {
    if host.bytes().all(|byte| byte.is_ascii_lowercase() || byte == b'.') && !host.is_empty() {
        Some(host.as_bytes().to_vec())
    } else {
        None
    }
}

fn allocate(directory: &mut FakeIpDirectory, journal: &mut Vec<u8>, host: &[u8]) -> Result<u32, DirectoryError> {
    match directory.lookup_or_allocate(host)? {
        Allocation::Known(address) => Ok(address),
        Allocation::Append { address, record } => {
            journal.extend_from_slice(&record);
            directory.commit_allocation(address, host.to_vec(), Appended::Written)
        }
    }
}

#[test]
fn names_keep_their_addresses_over_a_restart() {
    let mut directory = FakeIpDirectory::new(POOL, ENDPOINT).unwrap();
    let mut journal = Vec::new();
    let first = allocate(&mut directory, &mut journal, b"one.example").unwrap();
    let second = allocate(&mut directory, &mut journal, b"two.example").unwrap();
    assert_ne!(first, second);
    assert!(first != ENDPOINT && second != ENDPOINT);
    assert_eq!(allocate(&mut directory, &mut journal, b"one.example"), Ok(first));
    assert_eq!(journal.len(), 2 * RECORD_LEN);

    let restored = FakeIpDirectory::recover(&journal, POOL, ENDPOINT, &parse).unwrap();
    assert_eq!(restored.lookup_address(b"one.example"), Some(first));
    assert_eq!(restored.lookup_host(second), Some(&b"two.example"[..]));
    assert_eq!(restored.lookup_address(b"three.example"), None);
}

#[test]
fn pool_is_used_up_before_it_is_exhausted() {
    let mut directory = FakeIpDirectory::new(POOL, ENDPOINT).unwrap();
    let mut journal = Vec::new();
    for host in [&b"a"[..], b"b", b"c", b"d", b"e"] {
        allocate(&mut directory, &mut journal, host).unwrap();
    }
    assert_eq!(allocate(&mut directory, &mut journal, b"f"), Err(DirectoryError::Exhausted));
}

#[test]
fn failed_appends_change_nothing() {
    let mut directory = FakeIpDirectory::new(POOL, ENDPOINT).unwrap();
    let Ok(Allocation::Append { address, .. }) = directory.lookup_or_allocate(b"host") else {
        panic!("no allocation");
    };
    assert_eq!(
        directory.commit_allocation(address, b"host".to_vec(), Appended::RolledBack),
        Err(DirectoryError::Io)
    );
    assert_eq!(
        directory.commit_allocation(address, b"host".to_vec(), Appended::Failed),
        Err(DirectoryError::RollbackFailed)
    );
    assert_eq!(directory.lookup_address(b"host"), None);
}

#[test]
fn broken_and_conflicting_records_are_refused() {
    let good = encode_record(0xc612_0003, b"host");
    assert_eq!(decode_record(&good, 0, POOL, ENDPOINT, &parse), Ok((0xc612_0003, b"host".to_vec())));
    let mut broken = good.clone();
    broken[10] ^= 1;
    assert_eq!(
        decode_record(&broken, 4, POOL, ENDPOINT, &parse),
        Err(DirectoryError::CorruptRecord { index: 4 })
    );
    let outside = encode_record(0xc612_0103, b"host");
    assert!(decode_record(&outside, 0, POOL, ENDPOINT, &parse).is_err());

    let mut journal = good.clone();
    journal.extend_from_slice(&encode_record(0xc612_0003, b"other"));
    assert!(matches!(
        FakeIpDirectory::recover(&journal, POOL, ENDPOINT, &parse),
        Err(DirectoryError::ConflictingMapping { index: 1 })
    ));
    assert!(matches!(
        FakeIpDirectory::new(POOL, 1),
        Err(DirectoryError::AddressOutsidePool(1))
    ));
    assert!(matches!(
        FakeIpDirectory::new(POOL, POOL.network),
        Err(DirectoryError::UnusableEndpoint(_))
    ));
}

#[test]
fn journals_are_cut_at_the_last_whole_record() {
    assert_eq!(journal_extent(3), Err(DirectoryError::BadHeader));
    let extent = journal_extent(8 + 2 * RECORD_LEN as u64 + 5).unwrap();
    assert_eq!((extent.records, extent.length, extent.torn), (2, 8 + 2 * RECORD_LEN as u64, true));
    assert!(!journal_extent(8).unwrap().torn);
    assert_eq!(check_header(&header()), Ok(()));
    assert_eq!(check_header(b"whatever"), Err(DirectoryError::BadHeader));
}

#[test]
fn journals_belong_to_one_owner() {
    assert_eq!(verify_permissions(true, 1, 1, 1, 0o100_600), Ok(()));
    assert_eq!(verify_permissions(false, 1, 1, 1, 0o100_600), Err(DirectoryError::NotRegularFile));
    assert_eq!(verify_permissions(true, 2, 1, 1, 0o100_600), Err(DirectoryError::WrongOwner(2)));
    assert_eq!(verify_permissions(true, 1, 1, 2, 0o100_600), Err(DirectoryError::MultipleLinks(2)));
    assert!(matches!(
        verify_permissions(true, 1, 1, 1, 0o100_644),
        Err(DirectoryError::InsecurePermissions(_))
    ));
}

#[test]
fn hosts_that_are_not_utf8_are_corrupt() {
    let anything = |host: &str| Some(host.as_bytes().to_vec());
    let text = encode_record(0xc612_0003, "h\u{f6}st".as_bytes());
    assert_eq!(decode_record(&text, 0, POOL, ENDPOINT, &anything), Ok((0xc612_0003, "h\u{f6}st".as_bytes().to_vec())));
    let broken = encode_record(0xc612_0003, &[b'h', 0xff, b's']);
    assert_eq!(
        decode_record(&broken, 2, POOL, ENDPOINT, &anything),
        Err(DirectoryError::CorruptRecord { index: 2 })
    );
}
