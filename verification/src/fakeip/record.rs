//! Journal records: an address, a host, and a checksum.
use crate::crypto;
use crate::endian;
use crate::fakeip::error::DirectoryError;
use crate::fakeip::pool::Ipv4Pool;
use crate::fec::room::extend_bytes;
use crate::text;
use vstd::prelude::*;

verus! {

/// The most bytes that a host has.
pub const HOST_CAPACITY: usize = 253;

/// The length of a record without its checksum.
pub const RECORD_BODY_LEN: usize = 258;

/// The length of a record.
pub const RECORD_LEN: usize = 262;

/// The length of the journal's header.
pub const HEADER_LEN: usize = 8;

/// The header of a journal.
pub open spec fn header_bytes() -> Seq<u8> {
    seq![0x51u8, 0x55, 0x49, 0x43, 0x50, 0x4a, 0x01, 0x00]
}

/// The header of a journal.
pub fn header() -> (header: [u8; 8])
    ensures
        header@ == header_bytes(),
{
    let header: [u8; 8] = [0x51, 0x55, 0x49, 0x43, 0x50, 0x4a, 0x01, 0x00];
    assert(header@ =~= header_bytes());
    header
}

/// So many zero bytes.
pub open spec fn zeros(count: int) -> Seq<u8> {
    Seq::new(count as nat, |index: int| 0u8)
}

/// The record of a mapping without its checksum: the address, the length of the host, the
/// host, and zeros.
pub open spec fn body_of(address: u32, host: Seq<u8>) -> Seq<u8> {
    endian::be32(address) + seq![host.len() as u8] + host + zeros(HOST_CAPACITY - host.len())
}

/// The record of a mapping.
#[verifier::opaque]
pub open spec fn record_of(address: u32, host: Seq<u8>) -> Seq<u8> {
    body_of(address, host) + endian::be32(crypto::crc32c_of(body_of(address, host)))
}

/// Writes the record of a mapping.
pub fn encode_record(address: u32, host: &[u8]) -> (record: Vec<u8>)
    requires
        host@.len() <= HOST_CAPACITY,
    ensures
        record@ == record_of(address, host@),
        record@.len() == RECORD_LEN,
{
    let mut record: Vec<u8> = Vec::new();
    proof {
        endian::lemma_be32(address);
    }
    extend_bytes(&mut record, endian::to_be32(address).as_slice());
    record.push(host.len() as u8);
    extend_bytes(&mut record, host);
    let ghost filled = record@;
    while record.len() < RECORD_BODY_LEN
        invariant
            filled.len() <= record@.len() <= RECORD_BODY_LEN,
            record@ == filled + zeros(record@.len() - filled.len()),
        decreases RECORD_BODY_LEN - record@.len(),
    {
        let ghost before = record@;
        record.push(0);
        assert(record@ =~= filled + zeros(record@.len() - filled.len()));
    }
    assert(record@ =~= body_of(address, host@));
    let checksum: u32 = crypto::crc32c(record.as_slice());
    proof {
        endian::lemma_be32(checksum);
    }
    extend_bytes(&mut record, endian::to_be32(checksum).as_slice());
    reveal(record_of);
    assert(record@ =~= record_of(address, host@));
    record
}

/// The bytes that a record holds as its host.
pub open spec fn host_in(record: Seq<u8>) -> Seq<u8> {
    record.subrange(5, 5 + record[4])
}

/// Whether a record has the right checksum, a host of a possible length, and nothing but
/// zeros behind the host.
pub open spec fn intact(record: Seq<u8>) -> bool {
    &&& endian::be32_at(record, 258) == crypto::crc32c_of(record.take(258))
    &&& 0 < record[4] <= HOST_CAPACITY
    &&& forall|index: int| 5 + record[4] <= index < 258 ==> #[trigger] record[index] == 0
}

/// Reads the host of a record: the bytes are an intact record's and UTF-8, and `parse` says
/// which host their text is, if it is one. `None` stands for a corrupt record.
pub fn record_host<F: Fn(&str) -> Option<Vec<u8>>>(record: &[u8], parse: &F) -> (host: Option<Vec<u8>>)
    requires
        record@.len() == RECORD_LEN,
        forall|text: &str| call_requires(*parse, (text,)),
    ensures
        match host {
            Some(found) => intact(record@) && parses(*parse, host_in(record@), Some(found)),
            None => !intact(record@) || parses(*parse, host_in(record@), None),
        },
{
    let body = vstd::slice::slice_subrange(record, 0, RECORD_BODY_LEN);
    assert(body@ =~= record@.take(258));
    let expected: u32 = endian::read_be32_at(record, RECORD_BODY_LEN);
    if crypto::crc32c(body) != expected {
        return None;
    }
    let length: usize = record[4] as usize;
    if length == 0 || length > HOST_CAPACITY {
        return None;
    }
    let mut at: usize = 5 + length;
    while at < RECORD_BODY_LEN
        invariant
            record@.len() == RECORD_LEN,
            length == record@[4],
            5 + length <= at <= RECORD_BODY_LEN,
            forall|index: int| 5 + length <= index < at ==> #[trigger] record@[index] == 0,
        decreases RECORD_BODY_LEN - at,
    {
        if record[at] != 0 {
            return None;
        }
        at = at + 1;
    }
    let bytes = vstd::slice::slice_subrange(record, 5, 5 + length);
    assert(bytes@ == host_in(record@));
    let host: Option<Vec<u8>> = match text::from_utf8(bytes) {
        Some(text) => parse(text),
        None => None,
    };
    assert(parses(*parse, host_in(record@), host));
    host
}

/// Reads the address of a record, if it is one that a directory gives out.
pub fn record_address(record: &[u8], pool: Ipv4Pool, endpoint: u32) -> (address: Option<u32>)
    requires
        record@.len() == RECORD_LEN,
    ensures
        address == (if pool.usable(endian::be32_at(record@, 0)) && endian::be32_at(record@, 0) != endpoint {
            Some(endian::be32_at(record@, 0))
        } else {
            None::<u32>
        }),
{
    let address: u32 = endian::read_be32_at(record, 0);
    if !pool.contains(address) || address == pool.network || address == pool.broadcast || address == endpoint {
        return None;
    }
    Some(address)
}

/// Reads a record. `parse` says which host a text is, if it is one.
pub fn decode_record<F: Fn(&str) -> Option<Vec<u8>>>(
    record: &[u8],
    index: u64,
    pool: Ipv4Pool,
    endpoint: u32,
    parse: &F,
) -> (result: Result<(u32, Vec<u8>), DirectoryError>)
    requires
        record@.len() == RECORD_LEN,
        forall|text: &str| call_requires(*parse, (text,)),
    ensures
        record_read(record@, index, pool, endpoint, *parse, result),
{
    match record_host(record, parse) {
        None => Err(DirectoryError::CorruptRecord { index }),
        Some(host) => match record_address(record, pool, endpoint) {
            None => Err(DirectoryError::CorruptRecord { index }),
            Some(address) => Ok((address, host)),
        },
    }
}

/// Whether `parse` can take the text of some bytes for this host, or for none. Bytes that are
/// not UTF-8 are no host.
pub open spec fn parses<F: Fn(&str) -> Option<Vec<u8>>>(parse: F, bytes: Seq<u8>, host: Option<Vec<u8>>) -> bool {
    if vstd::utf8::valid_utf8(bytes) {
        exists|text: &str| text@ == vstd::utf8::decode_utf8(bytes) && #[trigger] call_ensures(parse, (text,), host)
    } else {
        host is None
    }
}

/// What comes of reading a record: the address and the host that the parser makes of the
/// bytes, or the record is corrupt: it is not intact, its host is none, or its address is
/// not one that is given out.
pub open spec fn record_read<F: Fn(&str) -> Option<Vec<u8>>>(
    record: Seq<u8>,
    index: u64,
    pool: Ipv4Pool,
    endpoint: u32,
    parse: F,
    result: Result<(u32, Vec<u8>), DirectoryError>,
) -> bool {
    let address = endian::be32_at(record, 0);
    let given_out = pool.usable(address) && address != endpoint;
    match result {
        Ok((found, host)) => intact(record) && given_out && found == address && parses(
            parse,
            host_in(record),
            Some(host),
        ),
        Err(error) => error == (DirectoryError::CorruptRecord { index }) && (!intact(record) || !given_out || parses(
            parse,
            host_in(record),
            None,
        )),
    }
}

/// A record that was written is intact, and holds the address and the host that were
/// written.
pub proof fn law_written_record_is_read_back(address: u32, host: Seq<u8>)
    requires
        0 < host.len() <= HOST_CAPACITY,
    ensures
        record_of(address, host).len() == RECORD_LEN,
        intact(record_of(address, host)),
        endian::be32_at(record_of(address, host), 0) == address,
        host_in(record_of(address, host)) == host,
{
    reveal(record_of);
    let body = body_of(address, host);
    let record = record_of(address, host);
    let checksum = crypto::crc32c_of(body);
    endian::lemma_be32(address);
    endian::lemma_be32(checksum);
    assert(body.len() == 258);
    assert(record.take(258) =~= body);
    assert(record.subrange(258, 262) =~= endian::be32(checksum));
    assert(record[258] == endian::be32(checksum)[0] && record[259] == endian::be32(checksum)[1]);
    assert(record[260] == endian::be32(checksum)[2] && record[261] == endian::be32(checksum)[3]);
    assert(record[0] == endian::be32(address)[0] && record[1] == endian::be32(address)[1]);
    assert(record[2] == endian::be32(address)[2] && record[3] == endian::be32(address)[3]);
    assert(record[4] == host.len());
    assert(host_in(record) =~= host);
}

}
