//! What holds over the calls that give a host its address.
use crate::endian;
use crate::fakeip::directory;
use crate::fakeip::directory::{Allocation, Appended, DirectoryModel, FakeIpDirectory};
use crate::fakeip::error::DirectoryError;
use crate::fakeip::journal;
use crate::fakeip::journal::JournalExtent;
use crate::fakeip::laws;
use crate::fakeip::pool::Ipv4Pool;
use crate::fakeip::record;
use vstd::prelude::*;

verus! {

proof fn lemma_lowest(model: DirectoryModel, from: int, address: u32)
    requires
        model.pool.network < from,
        from <= address < model.pool.broadcast,
        address != model.endpoint,
        directory::mapped_host(model.entries, address) is None,
    ensures
        directory::first_free(model.pool, model.endpoint, model.entries, from) matches Some(first) && first <= address,
    decreases address - from,
{
    if from < address {
        lemma_lowest(model, from + 1, address);
    }
}

/// A host without an address gets the lowest one that is free: it lies strictly between the
/// first and the last address of the pool, is not the endpoint's, belongs to no other host, and
/// no lower one is free. There is none only where every address of the pool is taken.
pub proof fn law_lowest_free_address_is_given(
    directory: &FakeIpDirectory,
    host: &[u8],
    known: Option<u32>,
    result: Result<Allocation, DirectoryError>,
    lower: u32,
)
    requires
        directory.wf(),
        0 < host@.len() <= 253,
        call_ensures(FakeIpDirectory::lookup_address, (directory, host), known),
        call_ensures(FakeIpDirectory::lookup_or_allocate, (directory, host), result),
        directory@.pool.network < lower < directory@.pool.broadcast,
        lower != directory@.endpoint,
    ensures
        known matches Some(address) ==> (result matches Ok(Allocation::Known(found)) && found == address),
        known is None ==> match result {
            Ok(Allocation::Append { address, record }) => {
                &&& directory@.pool.network < address < directory@.pool.broadcast
                &&& address != directory@.endpoint
                &&& directory::mapped_host(directory@.entries, address) is None
                &&& lower < address ==> directory::mapped_host(directory@.entries, lower) is Some
                &&& record@.len() == 262
                &&& endian::be32_at(record@, 0) == address
                &&& record@[4] == host@.len()
                &&& record@.subrange(5, 5 + host@.len() as int) == host@
            },
            Ok(Allocation::Known(_)) => false,
            Err(error) => error == DirectoryError::Exhausted
                && directory::mapped_host(directory@.entries, lower) is Some,
        },
{
    let model = directory@;
    laws::law_pool_is_used_up_before_it_is_exhausted(model, lower);
    if directory::mapped_host(model.entries, lower) is None {
        lemma_lowest(model, model.pool.network + 1, lower);
    }
    if known is None {
        if let Ok(Allocation::Append { address, record: bytes }) = result {
            record::law_written_record_is_read_back(address, host@);
            lemma_length_byte(address, host@);
        }
    }
}

proof fn lemma_length_byte(address: u32, host: Seq<u8>)
    requires
        0 < host.len() <= 253,
    ensures
        record::record_of(address, host)[4] == host.len(),
        record::record_of(address, host).len() == 262,
        record::record_of(address, host).subrange(5, 5 + host.len() as int) == host,
{
    reveal(record::record_of);
    let bytes = record::record_of(address, host);
    assert(bytes[4] == host.len());
    assert(bytes.subrange(5, 5 + host.len() as int) =~= host);
}

/// A mapping that was written down holds from then on, both ways, and every mapping from
/// before still does; one that was not written down does not exist.
pub proof fn law_written_mapping_is_found_both_ways(
    committing: &mut FakeIpDirectory,
    address: u32,
    host: Vec<u8>,
    appended: Appended,
    result: Result<u32, DirectoryError>,
    other: &[u8],
    other_before: Option<u32>,
    other_after: Option<u32>,
    own: &[u8],
    found: Option<u32>,
    holder: Option<&[u8]>,
)
    requires
        old(committing)@.valid(),
        directory::mapped_address(old(committing)@.entries, host@) is None,
        directory::mapped_host(old(committing)@.entries, address) is None,
        other@ != host@,
        own@ == host@,
        call_ensures(FakeIpDirectory::lookup_address, (&*old(committing), other), other_before),
        call_ensures(FakeIpDirectory::commit_allocation, (committing, address, host, appended), result),
        call_ensures(FakeIpDirectory::lookup_address, (&*final(committing), other), other_after),
        call_ensures(FakeIpDirectory::lookup_address, (&*final(committing), own), found),
        call_ensures(FakeIpDirectory::lookup_host, (&*final(committing), address), holder),
    ensures
        other_after == other_before,
        appended is Written ==> {
            &&& result == Ok::<u32, DirectoryError>(address)
            &&& found == Some(address)
            &&& holder matches Some(bytes) && bytes@ == host@
        },
        !(appended is Written) ==> {
            &&& result is Err
            &&& found is None
            &&& holder is None
            &&& final(committing)@ == old(committing)@
        },
        appended is RolledBack ==> result == Err::<u32, DirectoryError>(DirectoryError::Io),
        appended is Failed ==> result == Err::<u32, DirectoryError>(DirectoryError::RollbackFailed),
{
    laws::law_mappings_are_stable(old(committing)@.entries, address, host@, other@);
    let longer = old(committing)@.entries.push((address, host@));
    assert(longer.last() == (address, host@));
    assert(longer.drop_last() =~= old(committing)@.entries);
}

/// A host is found at an address exactly where it was given that address.
pub proof fn law_lookups_agree(
    directory: &FakeIpDirectory,
    host: &[u8],
    address: u32,
    found: Option<u32>,
    holder: Option<&[u8]>,
)
    requires
        directory@.valid(),
        call_ensures(FakeIpDirectory::lookup_address, (directory, host), found),
        call_ensures(FakeIpDirectory::lookup_host, (directory, address), holder),
    ensures
        found == Some(address) <==> (holder matches Some(bytes) && bytes@ == host@),
        found matches Some(at) ==> directory@.pool.network < at < directory@.pool.broadcast
            && at != directory@.endpoint,
{
    laws::law_lookups_are_inverse(directory@, host@, address);
    directory::lemma_mapped_address(directory@.entries, host@);
    if let Some(at) = found {
        let index = choose|index: int|
            0 <= index < directory@.entries.len() && #[trigger] directory@.entries[index] == (at, host@);
        assert(directory@.pool.usable(directory@.entries[index].0));
    }
}

/// A directory is made exactly where its endpoint lies strictly inside the pool, and is then
/// empty; the addresses at both ends of the pool belong to it, but to no host.
pub proof fn law_endpoint_lies_inside_the_pool(
    pool: Ipv4Pool,
    endpoint: u32,
    result: Result<FakeIpDirectory, DirectoryError>,
    inside: bool,
    usable: bool,
)
    requires
        call_ensures(FakeIpDirectory::new, (pool, endpoint), result),
        call_ensures(Ipv4Pool::contains, (&pool, endpoint), inside),
        call_ensures(Ipv4Pool::is_usable, (&pool, endpoint), usable),
    ensures
        result is Ok <==> pool.network < endpoint < pool.broadcast,
        result matches Ok(directory) ==> directory@.entries.len() == 0 && directory@.pool == pool && directory@.endpoint
            == endpoint,
        result matches Err(error) ==> error == (if pool.network <= endpoint <= pool.broadcast {
            DirectoryError::UnusableEndpoint(endpoint)
        } else {
            DirectoryError::AddressOutsidePool(endpoint)
        }),
        inside <==> pool.network <= endpoint <= pool.broadcast,
        usable <==> pool.network < endpoint < pool.broadcast,
{
}

/// A record has the address in its first four bytes, the length of the host in the next, the
/// host behind it, zeros up to byte 258, and the checksum of all that in its last four.
pub proof fn law_record_has_its_layout(address: u32, host: &[u8], written: Vec<u8>, at: int)
    requires
        host@.len() <= 253,
        call_ensures(record::encode_record, (address, host), written),
        5 + host@.len() <= at < 258,
    ensures
        written@.len() == 262,
        written@[0] == address / 0x100_0000,
        written@[1] == address / 0x1_0000 % 256,
        written@[2] == address / 0x100 % 256,
        written@[3] == address % 256,
        written@[4] == host@.len(),
        written@.subrange(5, 5 + host@.len() as int) == host@,
        written@[at] == 0,
        written@.skip(258) == endian::be32(crate::crypto::crc32c_of(written@.take(258))),
{
    reveal(record::record_of);
    let body = record::body_of(address, host@);
    assert(body.len() == 258);
    assert(written@.take(258) =~= body);
    assert(written@.subrange(5, 5 + host@.len() as int) =~= host@);
    assert(written@.skip(258) =~= endian::be32(crate::crypto::crc32c_of(body)));
}

/// A record is read only where its checksum holds, its host is neither empty nor too long, and
/// only zeros follow it, and its address is one that a host can have; and it is corrupt only
/// where one of these fails, or its host is no name.
pub proof fn law_damaged_record_is_corrupt<F: Fn(&str) -> Option<Vec<u8>>>(
    bytes: &[u8],
    index: u64,
    pool: Ipv4Pool,
    endpoint: u32,
    parse: &F,
    result: Result<(u32, Vec<u8>), DirectoryError>,
)
    requires
        bytes@.len() == 262,
        call_ensures(record::decode_record::<F>, (bytes, index, pool, endpoint, parse), result),
    ensures
        result matches Ok((address, host)) ==> {
            &&& endian::be32_at(bytes@, 258) == crate::crypto::crc32c_of(bytes@.take(258))
            &&& 1 <= bytes@[4] <= 253
            &&& forall|at: int| 5 + bytes@[4] <= at < 258 ==> #[trigger] bytes@[at] == 0
            &&& address == endian::be32_at(bytes@, 0)
            &&& pool.network < address < pool.broadcast
            &&& address != endpoint
        },
        result matches Err(error) ==> error == (DirectoryError::CorruptRecord { index }),
        result is Err ==> {
            ||| endian::be32_at(bytes@, 258) != crate::crypto::crc32c_of(bytes@.take(258))
            ||| bytes@[4] == 0 || bytes@[4] > 253
            ||| exists|at: int| 5 + bytes@[4] <= at < 258 && #[trigger] bytes@[at] != 0
            ||| endian::be32_at(bytes@, 0) <= pool.network || endian::be32_at(bytes@, 0) >= pool.broadcast
            ||| endian::be32_at(bytes@, 0) == endpoint
            ||| record::parses(*parse, bytes@.subrange(5, 5 + bytes@[4]), None)
        },
{
}

/// A journal holds as many records as fit whole behind its header of eight bytes, each of 262;
/// what is left behind them is torn off.
pub proof fn law_torn_tail_is_cut_off(length: u64, result: Result<JournalExtent, DirectoryError>)
    requires
        call_ensures(journal::journal_extent, (length,), result),
    ensures
        result is Ok <==> length >= 8,
        result matches Err(error) ==> error == DirectoryError::BadHeader,
        result matches Ok(extent) ==> {
            &&& extent.length == 8 + extent.records * 262
            &&& extent.length <= length < extent.length + 262
            &&& extent.torn <==> extent.length < length
        },
{
}

/// A journal is used only where it is a file of its own, owned by the user or by the
/// superuser, with one name, that nobody else may read or write.
pub proof fn law_journal_is_private(
    regular: bool,
    owner: u32,
    current: u32,
    links: u64,
    mode: u32,
    result: Result<(), DirectoryError>,
)
    requires
        call_ensures(journal::verify_permissions, (regular, owner, current, links, mode), result),
    ensures
        result is Ok <==> regular && (owner == 0 || owner == current) && links == 1 && mode % 64 == 0,
        !regular ==> result == Err::<(), DirectoryError>(DirectoryError::NotRegularFile),
        regular && owner != 0 && owner != current ==> result == Err::<(), DirectoryError>(
            DirectoryError::WrongOwner(owner),
        ),
        regular && (owner == 0 || owner == current) && links != 1 ==> result == Err::<(), DirectoryError>(
            DirectoryError::MultipleLinks(links),
        ),
{
    assert((mode & 0o077 != 0) == (mode % 64 != 0)) by (bit_vector);
}

/// A journal starts with the letters QUICPJ, its version and a zero, and with nothing else.
pub proof fn law_journal_starts_with_its_header(given: &[u8], result: Result<(), DirectoryError>, header: [u8; 8])
    requires
        call_ensures(journal::check_header, (given,), result),
        call_ensures(record::header, (), header),
    ensures
        result is Ok <==> given@ == header@,
        header@ == seq![0x51u8, 0x55u8, 0x49u8, 0x43u8, 0x50u8, 0x4au8, 0x01u8, 0x00u8],
{
}

} // verus!
