//! Which host has which address.
use crate::fakeip::error::DirectoryError;
use crate::fakeip::pool::Ipv4Pool;
use crate::fakeip::record;
use crate::storage;
use std::collections::HashMap;
use vstd::prelude::*;

verus! {

/// One mapping.
#[derive(Debug)]
pub struct Mapping {
    address: u32,
    host: Vec<u8>,
}

/// Hosts and their addresses, in the order of the journal.
#[derive(Debug)]
pub struct FakeIpDirectory {
    pool: Ipv4Pool,
    endpoint: u32,
    entries: Vec<Mapping>,
    by_address: HashMap<u32, usize>,
    next_address: Option<u32>,
}

/// The content of a directory.
#[verifier::ext_equal]
pub ghost struct DirectoryModel {
    /// The addresses that it gives out.
    pub pool: Ipv4Pool,
    /// The address of the pool that it never gives out.
    pub endpoint: u32,
    /// The addresses and their hosts, in the order of the journal.
    pub entries: Seq<(u32, Seq<u8>)>,
}

/// The content of a mapping.
pub closed spec fn mapping_model(mapping: Mapping) -> (u32, Seq<u8>) {
    (mapping.address, mapping.host@)
}

impl View for FakeIpDirectory {
    type V = DirectoryModel;

    closed spec fn view(&self) -> DirectoryModel {
        DirectoryModel {
            pool: self.pool,
            endpoint: self.endpoint,
            entries: self.entries@.map_values(|mapping: Mapping| mapping_model(mapping)),
        }
    }
}

/// The address that some entries give a host.
pub open spec fn mapped_address(entries: Seq<(u32, Seq<u8>)>, host: Seq<u8>) -> Option<u32>
    decreases entries.len(),
{
    if entries.len() == 0 {
        None
    } else if entries.last().1 == host {
        Some(entries.last().0)
    } else {
        mapped_address(entries.drop_last(), host)
    }
}

/// The host that some entries give an address.
pub open spec fn mapped_host(entries: Seq<(u32, Seq<u8>)>, address: u32) -> Option<Seq<u8>>
    decreases entries.len(),
{
    if entries.len() == 0 {
        None
    } else if entries.last().0 == address {
        Some(entries.last().1)
    } else {
        mapped_host(entries.drop_last(), address)
    }
}

/// Whether no host and no address occurs twice.
pub open spec fn distinct(entries: Seq<(u32, Seq<u8>)>) -> bool {
    forall|left: int, right: int|
        0 <= left < right < entries.len() ==> (#[trigger] entries[left]).0 != (#[trigger] entries[right]).0
            && entries[left].1 != entries[right].1
}

/// Whether every entry is one that a directory can have.
pub open spec fn permitted(pool: Ipv4Pool, endpoint: u32, entries: Seq<(u32, Seq<u8>)>) -> bool {
    forall|index: int|
        0 <= index < entries.len() ==> pool.usable((#[trigger] entries[index]).0) && entries[index].0 != endpoint
}

/// The first address from `from` on that can be given out, if one can.
pub open spec fn first_free(pool: Ipv4Pool, endpoint: u32, entries: Seq<(u32, Seq<u8>)>, from: int) -> Option<u32>
    decreases pool.broadcast - from,
{
    if from < 0 || from >= pool.broadcast {
        None
    } else if from != endpoint && mapped_host(entries, from as u32) is None {
        Some(from as u32)
    } else {
        first_free(pool, endpoint, entries, from + 1)
    }
}

pub(crate) proof fn lemma_mapped_host(entries: Seq<(u32, Seq<u8>)>, address: u32)
    ensures
        match mapped_host(entries, address) {
            Some(host) => exists|index: int|
                0 <= index < entries.len() && #[trigger] entries[index] == (address, host),
            None => forall|index: int| 0 <= index < entries.len() ==> (#[trigger] entries[index]).0 != address,
        },
    decreases entries.len(),
{
    if entries.len() > 0 && entries.last().0 != address {
        let front = entries.drop_last();
        lemma_mapped_host(front, address);
        if let Some(host) = mapped_host(front, address) {
            let index = choose|index: int| 0 <= index < front.len() && #[trigger] front[index] == (address, host);
            assert(entries[index] == (address, host));
        } else {
            assert forall|index: int| 0 <= index < entries.len() implies (#[trigger] entries[index]).0 != address by {
                if index < front.len() {
                    assert(front[index] == entries[index]);
                }
            }
        }
    } else if entries.len() > 0 {
        assert(entries[entries.len() - 1] == (address, entries.last().1));
    }
}

pub(crate) proof fn lemma_mapped_address(entries: Seq<(u32, Seq<u8>)>, host: Seq<u8>)
    ensures
        match mapped_address(entries, host) {
            Some(address) => exists|index: int|
                0 <= index < entries.len() && #[trigger] entries[index] == (address, host),
            None => forall|index: int| 0 <= index < entries.len() ==> (#[trigger] entries[index]).1 != host,
        },
    decreases entries.len(),
{
    if entries.len() > 0 && entries.last().1 != host {
        let front = entries.drop_last();
        lemma_mapped_address(front, host);
        if let Some(address) = mapped_address(front, host) {
            let index = choose|index: int| 0 <= index < front.len() && #[trigger] front[index] == (address, host);
            assert(entries[index] == (address, host));
        } else {
            assert forall|index: int| 0 <= index < entries.len() implies (#[trigger] entries[index]).1 != host by {
                if index < front.len() {
                    assert(front[index] == entries[index]);
                }
            }
        }
    } else if entries.len() > 0 {
        assert(entries[entries.len() - 1] == (entries.last().0, host));
    }
}

/// Of distinct entries, one that holds an address is the one that is found.
pub(crate) proof fn lemma_entry_is_found(entries: Seq<(u32, Seq<u8>)>, index: int)
    requires
        distinct(entries),
        0 <= index < entries.len(),
    ensures
        mapped_host(entries, entries[index].0) == Some(entries[index].1),
        mapped_address(entries, entries[index].1) == Some(entries[index].0),
{
    let (address, host) = entries[index];
    lemma_mapped_host(entries, address);
    lemma_mapped_address(entries, host);
    if mapped_host(entries, address) is Some {
        let other = mapped_host(entries, address)->0;
        let found = choose|found: int| 0 <= found < entries.len() && #[trigger] entries[found] == (address, other);
        assert(found == index) by {
            if found < index {
                assert(entries[found].0 != entries[index].0);
            } else if index < found {
                assert(entries[index].0 != entries[found].0);
            }
        }
    }
    if mapped_address(entries, host) is Some {
        let other = mapped_address(entries, host)->0;
        let found = choose|found: int| 0 <= found < entries.len() && #[trigger] entries[found] == (other, host);
        assert(found == index) by {
            if found < index {
                assert(entries[found].1 != entries[index].1);
            } else if index < found {
                assert(entries[index].1 != entries[found].1);
            }
        }
    }
}

/// The first free address is free, and nothing before it is.
pub(crate) proof fn lemma_first_free(pool: Ipv4Pool, endpoint: u32, entries: Seq<(u32, Seq<u8>)>, from: int)
    requires
        from >= 0,
    ensures
        match first_free(pool, endpoint, entries, from) {
            Some(found) => from <= found < pool.broadcast && found != endpoint && mapped_host(entries, found) is None
                && forall|before: u32|
                from <= before < found ==> before == endpoint || #[trigger] mapped_host(entries, before) is Some,
            None => forall|before: u32|
                from <= before < pool.broadcast ==> before == endpoint || #[trigger] mapped_host(
                    entries,
                    before,
                ) is Some,
        },
    decreases pool.broadcast - from,
{
    if from < pool.broadcast && !(from != endpoint && mapped_host(entries, from as u32) is None) {
        lemma_first_free(pool, endpoint, entries, from + 1);
    }
}

/// A search that starts behind addresses that are all taken finds what a search from
/// before them finds.
proof fn lemma_search_from(pool: Ipv4Pool, endpoint: u32, entries: Seq<(u32, Seq<u8>)>, from: int, later: int)
    requires
        0 <= from <= later,
        forall|before: u32|
            from <= before < later && before < pool.broadcast ==> before == endpoint || #[trigger] mapped_host(
                entries,
                before,
            ) is Some,
    ensures
        first_free(pool, endpoint, entries, from) == first_free(pool, endpoint, entries, later),
    decreases later - from,
{
    if from < later {
        if from < pool.broadcast {
            let here = from as u32;
            assert(here == endpoint || mapped_host(entries, here) is Some);
        }
        lemma_search_from(pool, endpoint, entries, from + 1, later);
    }
}

impl DirectoryModel {
    /// Every host has one address and every address one host, and each address is one that
    /// is given out.
    pub open spec fn valid(self) -> bool {
        distinct(self.entries) && permitted(self.pool, self.endpoint, self.entries)
    }

    /// The address that the next new host gets, if the pool has one.
    pub open spec fn next(self) -> Option<u32> {
        first_free(self.pool, self.endpoint, self.entries, self.pool.network + 1)
    }
}

impl FakeIpDirectory {
    /// The index by address is that of the entries, and the next address is known.
    pub closed spec fn wf(&self) -> bool {
        &&& self@.valid()
        &&& forall|address: u32| #[trigger]
            self.by_address@.contains_key(address) <==> mapped_host(self@.entries, address) is Some
        &&& forall|address: u32| #[trigger]
            self.by_address@.contains_key(address) ==> self.by_address@[address] < self.entries@.len()
                && self.entries@[self.by_address@[address] as int].address == address
        &&& self.next_address == self@.next()
    }

    /// What well-formed means for the content.
    pub proof fn lemma_wf(&self)
        requires
            self.wf(),
        ensures
            self@.valid(),
    {
    }

    /// An empty directory.
    pub fn new(pool: Ipv4Pool, endpoint: u32) -> (result: Result<Self, DirectoryError>)
        ensures
            match result {
                Ok(directory) => {
                    &&& pool.usable(endpoint)
                    &&& directory.wf()
                    &&& directory@ == (DirectoryModel { pool, endpoint, entries: Seq::empty() })
                },
                Err(error) => if !pool.spans(endpoint) {
                    error == DirectoryError::AddressOutsidePool(endpoint)
                } else {
                    !pool.usable(endpoint) && error == DirectoryError::UnusableEndpoint(endpoint)
                },
            },
    {
        broadcast use vstd::std_specs::hash::group_hash_axioms;

        if !pool.contains(endpoint) {
            return Err(DirectoryError::AddressOutsidePool(endpoint));
        }
        if !pool.is_usable(endpoint) {
            return Err(DirectoryError::UnusableEndpoint(endpoint));
        }
        let mut directory = FakeIpDirectory {
            pool,
            endpoint,
            entries: Vec::new(),
            by_address: HashMap::new(),
            next_address: None,
        };
        assert(directory@.entries =~= Seq::empty());
        directory.next_address = directory.next_free_from(pool.network as u64 + 1);
        assert(directory@.entries =~= Seq::empty());
        Ok(directory)
    }

    fn next_free_from(&self, start: u64) -> (found: Option<u32>)
        requires
            forall|address: u32| #[trigger]
                self.by_address@.contains_key(address) <==> mapped_host(self@.entries, address) is Some,
        ensures
            found == first_free(self@.pool, self@.endpoint, self@.entries, start as int),
    {
        broadcast use vstd::std_specs::hash::group_hash_axioms;

        let mut at: u64 = start;
        while at < self.pool.broadcast as u64
            invariant
                start <= at,
                start > self.pool.broadcast || at <= self.pool.broadcast,
                forall|address: u32| #[trigger]
                    self.by_address@.contains_key(address) <==> mapped_host(self@.entries, address) is Some,
                first_free(self@.pool, self@.endpoint, self@.entries, start as int) == first_free(
                    self@.pool,
                    self@.endpoint,
                    self@.entries,
                    at as int,
                ),
            decreases self.pool.broadcast - at,
        {
            broadcast use vstd::std_specs::hash::group_hash_axioms;

            let address: u32 = at as u32;
            if address != self.endpoint && !self.by_address.contains_key(&address) {
                return Some(address);
            }
            at = at + 1;
        }
        None
    }

    /// The address of a host, if it has one.
    pub fn lookup_address(&self, host: &[u8]) -> (address: Option<u32>)
        ensures
            address == mapped_address(self@.entries, host@),
    {
        let mut left: usize = self.entries.len();
        let ghost all = self@.entries;
        assert(all.take(all.len() as int) =~= all);
        while left > 0
            invariant
                left <= self.entries@.len(),
                all == self@.entries,
                all.len() == self.entries@.len(),
                mapped_address(all, host@) == mapped_address(all.take(left as int), host@),
            decreases left,
        {
            let mapping: &Mapping = &self.entries[left - 1];
            assert(all[left - 1] == mapping_model(*mapping));
            assert(all.take(left as int).last() == all[left - 1]);
            assert(all.take(left as int).drop_last() =~= all.take(left - 1));
            if storage::equal(mapping.host.as_slice(), host) {
                return Some(mapping.address);
            }
            left = left - 1;
        }
        None
    }

    /// The host of an address, if it has one.
    pub fn lookup_host(&self, address: u32) -> (host: Option<&[u8]>)
        requires
            self.wf(),
        ensures
            match host {
                Some(found) => mapped_host(self@.entries, address) == Some(found@),
                None => mapped_host(self@.entries, address) is None,
            },
    {
        broadcast use vstd::std_specs::hash::group_hash_axioms;

        match self.by_address.get(&address) {
            Some(index) => {
                proof {
                    assert(self@.entries[*index as int] == mapping_model(self.entries@[*index as int]));
                    lemma_entry_is_found(self@.entries, *index as int);
                }
                Some(self.entries[*index].host.as_slice())
            },
            None => None,
        }
    }

    /// Adds a mapping. `next` is where the search for the next address starts.
    fn add_mapping(&mut self, address: u32, host: Vec<u8>)
        requires
            old(self)@.valid(),
            forall|other: u32| #[trigger]
                old(self).by_address@.contains_key(other) <==> mapped_host(old(self)@.entries, other) is Some,
            forall|other: u32| #[trigger]
                old(self).by_address@.contains_key(other) ==> old(self).by_address@[other] < old(self).entries@.len()
                    && old(self).entries@[old(self).by_address@[other] as int].address == other,
            old(self)@.pool.usable(address),
            address != old(self)@.endpoint,
            mapped_host(old(self)@.entries, address) is None,
            mapped_address(old(self)@.entries, host@) is None,
        ensures
            final(self)@ == (DirectoryModel { entries: old(self)@.entries.push((address, host@)), ..old(self)@ }),
            final(self)@.valid(),
            forall|other: u32| #[trigger]
                final(self).by_address@.contains_key(other) <==> mapped_host(final(self)@.entries, other) is Some,
            forall|other: u32| #[trigger]
                final(self).by_address@.contains_key(other) ==> final(self).by_address@[other]
                    < final(self).entries@.len() && final(self).entries@[final(self).by_address@[other] as int].address
                    == other,
            final(self).next_address == old(self).next_address,
    {
        broadcast use vstd::std_specs::hash::group_hash_axioms;

        let ghost before = self@.entries;
        let ghost content = host@;
        let index: usize = self.entries.len();
        self.entries.push(Mapping { address, host });
        self.by_address.insert(address, index);
        proof {
            let after = self@.entries;
            assert(after =~= before.push((address, content)));
            assert(after.drop_last() =~= before);
            lemma_mapped_host(before, address);
            lemma_mapped_address(before, content);
            assert forall|left: int, right: int| 0 <= left < right < after.len() implies (#[trigger] after[left]).0 != (
            #[trigger] after[right]).0 && after[left].1 != after[right].1 by {
                if right < before.len() {
                    assert(before[left].0 != before[right].0);
                } else {
                    assert(before[left] == after[left]);
                }
            }
            assert forall|at: int| 0 <= at < after.len() implies self@.pool.usable((#[trigger] after[at]).0)
                && after[at].0 != self@.endpoint by {
                if at < before.len() {
                    assert(before[at] == after[at]);
                }
            }
            assert forall|other: u32| #[trigger]
                self.by_address@.contains_key(other) <==> mapped_host(after, other) is Some by {
                assert(mapped_host(after, other) == if other == address {
                    Some(content)
                } else {
                    mapped_host(before, other)
                });
            }
        }
    }

    /// Reads a journal behind its header: complete records, one behind the other. `parse`
    /// says which host a text is, if it is one.
    pub fn recover<F: Fn(&str) -> Option<Vec<u8>>>(records: &[u8], pool: Ipv4Pool, endpoint: u32, parse: &F) -> (result:
        Result<Self, DirectoryError>)
        requires
            records@.len() % (record::RECORD_LEN as nat) == 0,
            forall|text: &str| call_requires(*parse, (text,)),
        ensures
            if !pool.spans(endpoint) {
                result matches Err(error) && error == DirectoryError::AddressOutsidePool(endpoint)
            } else if !pool.usable(endpoint) {
                result matches Err(error) && error == DirectoryError::UnusableEndpoint(endpoint)
            } else {
                recovered(records@, pool, endpoint, *parse, result)
            },
    {
        broadcast use vstd::std_specs::hash::group_hash_axioms;

        let mut directory = match Self::new(pool, endpoint) {
            Ok(directory) => directory,
            Err(error) => return Err(error),
        };
        let count: usize = records.len() / record::RECORD_LEN;
        let mut index: usize = 0;
        assert(read_entries(records@, pool, endpoint, *parse, directory@.entries));
        while index < count
            invariant
                index <= count,
                count * record::RECORD_LEN == records@.len(),
                count == records@.len() / (record::RECORD_LEN as nat),
                forall|text: &str| call_requires(*parse, (text,)),
                pool.usable(endpoint),
                directory@.pool == pool,
                directory@.endpoint == endpoint,
                directory@.valid(),
                directory@.entries.len() == index,
                read_entries(records@, pool, endpoint, *parse, directory@.entries),
                forall|other: u32| #[trigger]
                    directory.by_address@.contains_key(other) <==> mapped_host(directory@.entries, other) is Some,
                forall|other: u32| #[trigger]
                    directory.by_address@.contains_key(other) ==> directory.by_address@[other]
                        < directory.entries@.len() && directory.entries@[directory.by_address@[other] as int].address
                        == other,
            decreases count - index,
        {
            broadcast use vstd::std_specs::hash::group_hash_axioms;

            assert(records.len() == records@.len());
            let start: usize = index * record::RECORD_LEN;
            let bytes = vstd::slice::slice_subrange(records, start, start + record::RECORD_LEN);
            assert(bytes@ == record_at(records@, index as int));
            let ghost before = directory@.entries;
            match record::decode_record(bytes, index as u64, pool, endpoint, parse) {
                Err(error) => {
                    assert(stops_at(records@, pool, endpoint, *parse, before, error));
                    return Err(error);
                },
                Ok((address, host)) => {
                    let ghost entries = before.push((address, host@));
                    proof {
                        assert(reads_to(records@, pool, endpoint, *parse, index as int, address, host));
                        let entry = (address, host@);
                        assert(reads_to(records@, pool, endpoint, *parse, index as int, entry.0, host));
                        assert(entry_read(records@, pool, endpoint, *parse, index as int, entry));
                        assert forall|at: int| 0 <= at < entries.len() implies entry_read(
                            records@,
                            pool,
                            endpoint,
                            *parse,
                            at,
                            #[trigger] entries[at],
                        ) by {
                            if at < before.len() {
                                assert(entries[at] == before[at]);
                            }
                        }
                        lemma_mapped_host(before, address);
                        lemma_mapped_address(before, host@);
                    }
                    let known: bool = directory.lookup_address(host.as_slice()).is_some();
                    if known || directory.by_address.contains_key(&address) {
                        proof {
                            assert(conflicts(before, (address, host@)));
                            assert(stops_at(
                                records@,
                                pool,
                                endpoint,
                                *parse,
                                before,
                                DirectoryError::ConflictingMapping { index: index as u64 },
                            ));
                        }
                        return Err(DirectoryError::ConflictingMapping { index: index as u64 });
                    }
                    directory.add_mapping(address, host);
                    assert(directory@.entries == entries);
                },
            }
            index = index + 1;
        }
        directory.next_address = directory.next_free_from(pool.network as u64 + 1);
        Ok(directory)
    }

    /// What `lookup_or_allocate` does first: the host has an address already, or gets the
    /// next one once its record is in the journal.
    pub fn lookup_or_allocate(&self, host: &[u8]) -> (result: Result<Allocation, DirectoryError>)
        requires
            self.wf(),
            0 < host@.len() <= record::HOST_CAPACITY,
        ensures
            match mapped_address(self@.entries, host@) {
                Some(address) => result matches Ok(Allocation::Known(found)) && found == address,
                None => match self@.next() {
                    Some(address) => result matches Ok(Allocation::Append { address: found, record: bytes }) && found
                        == address && bytes@ == record::record_of(address, host@),
                    None => result matches Err(error) && error == DirectoryError::Exhausted,
                },
            },
    {
        if let Some(address) = self.lookup_address(host) {
            return Ok(Allocation::Known(address));
        }
        match self.next_address {
            Some(address) => Ok(Allocation::Append { address, record: record::encode_record(address, host) }),
            None => Err(DirectoryError::Exhausted),
        }
    }

    /// What `lookup_or_allocate` does once the record of a new host was written, or was
    /// not: the mapping holds only where the journal has it.
    pub fn commit_allocation(&mut self, address: u32, host: Vec<u8>, appended: Appended) -> (result: Result<
        u32,
        DirectoryError,
    >)
        requires
            old(self).wf(),
            mapped_address(old(self)@.entries, host@) is None,
            old(self)@.next() == Some(address),
        ensures
            final(self).wf(),
            match appended {
                Appended::Written => result == Ok::<u32, DirectoryError>(address) && final(self)@ == (DirectoryModel {
                    entries: old(self)@.entries.push((address, host@)),
                    ..old(self)@
                }),
                Appended::RolledBack => result == Err::<u32, DirectoryError>(DirectoryError::Io) && final(self)@
                    == old(self)@,
                Appended::Failed => result == Err::<u32, DirectoryError>(DirectoryError::RollbackFailed)
                    && final(self)@ == old(self)@,
            },
    {
        match appended {
            Appended::RolledBack => Err(DirectoryError::Io),
            Appended::Failed => Err(DirectoryError::RollbackFailed),
            Appended::Written => {
                let ghost before = self@;
                proof {
                    lemma_first_free(before.pool, before.endpoint, before.entries, before.pool.network + 1);
                }
                self.add_mapping(address, host);
                self.next_address = self.next_free_from(address as u64 + 1);
                proof {
                    let after = self@.entries;
                    assert forall|earlier: u32|
                        before.pool.network + 1 <= earlier < address + 1 && earlier < before.pool.broadcast implies earlier
                        == before.endpoint || #[trigger] mapped_host(after, earlier) is Some by {
                        assert(after.drop_last() =~= before.entries);
                        if earlier != address {
                            assert(earlier == before.endpoint || mapped_host(before.entries, earlier) is Some);
                        }
                    }
                    lemma_search_from(
                        before.pool,
                        before.endpoint,
                        after,
                        before.pool.network + 1,
                        address + 1,
                    );
                }
                Ok(address)
            },
        }
    }
}

/// What a host gets.
#[derive(Debug)]
pub enum Allocation {
    /// The address that it has.
    Known(u32),
    /// An address, once this record is at the end of the journal.
    Append {
        /// The address.
        address: u32,
        /// The record.
        record: Vec<u8>,
    },
}

/// What became of a record that was to be appended.
#[derive(Clone, Copy, Debug, PartialEq, Eq, Structural)]
pub enum Appended {
    /// It is in the journal.
    Written,
    /// It is not, and the journal is as it was.
    RolledBack,
    /// It is not, and the journal could not be put back.
    Failed,
}

/// The record at a position of a journal.
pub open spec fn record_at(records: Seq<u8>, index: int) -> Seq<u8> {
    records.subrange(index * record::RECORD_LEN, (index + 1) * record::RECORD_LEN)
}

/// Whether reading the record at a position can give this entry.
pub open spec fn entry_read<F: Fn(&str) -> Option<Vec<u8>>>(
    records: Seq<u8>,
    pool: Ipv4Pool,
    endpoint: u32,
    parse: F,
    index: int,
    entry: (u32, Seq<u8>),
) -> bool {
    exists|held: Vec<u8>|
        held@ == entry.1 && #[trigger] reads_to(records, pool, endpoint, parse, index, entry.0, held)
}

/// Whether reading the record at a position can give this address and host.
pub open spec fn reads_to<F: Fn(&str) -> Option<Vec<u8>>>(
    records: Seq<u8>,
    pool: Ipv4Pool,
    endpoint: u32,
    parse: F,
    index: int,
    address: u32,
    host: Vec<u8>,
) -> bool {
    record::record_read(
        record_at(records, index),
        index as u64,
        pool,
        endpoint,
        parse,
        Ok::<(u32, Vec<u8>), DirectoryError>((address, host)),
    )
}

/// Whether reading the first records can give these entries.
pub open spec fn read_entries<F: Fn(&str) -> Option<Vec<u8>>>(
    records: Seq<u8>,
    pool: Ipv4Pool,
    endpoint: u32,
    parse: F,
    entries: Seq<(u32, Seq<u8>)>,
) -> bool {
    forall|index: int|
        0 <= index < entries.len() ==> entry_read(records, pool, endpoint, parse, index, #[trigger] entries[index])
}

/// Whether an entry has the host or the address of an earlier one.
pub open spec fn conflicts(entries: Seq<(u32, Seq<u8>)>, entry: (u32, Seq<u8>)) -> bool {
    mapped_address(entries, entry.1) is Some || mapped_host(entries, entry.0) is Some
}

/// Whether reading can stop with this error behind these entries: the next record is
/// corrupt, or conflicts with them.
pub open spec fn stops_at<F: Fn(&str) -> Option<Vec<u8>>>(
    records: Seq<u8>,
    pool: Ipv4Pool,
    endpoint: u32,
    parse: F,
    entries: Seq<(u32, Seq<u8>)>,
    error: DirectoryError,
) -> bool {
    let index = entries.len() as int;
    &&& index < records.len() / (record::RECORD_LEN as nat)
    &&& distinct(entries)
    &&& read_entries(records, pool, endpoint, parse, entries)
    &&& match error {
        DirectoryError::CorruptRecord { index: at } => at == index && record::record_read(
            record_at(records, index),
            at,
            pool,
            endpoint,
            parse,
            Err::<(u32, Vec<u8>), DirectoryError>(error),
        ),
        DirectoryError::ConflictingMapping { index: at } => at == index && exists|entry: (u32, Seq<u8>)| #[trigger]
            entry_read(records, pool, endpoint, parse, index, entry) && conflicts(entries, entry),
        _ => false,
    }
}

/// What comes of reading a journal: the entry of every record, all distinct, or the first
/// record that is corrupt or conflicts with an earlier one.
pub open spec fn recovered<F: Fn(&str) -> Option<Vec<u8>>>(
    records: Seq<u8>,
    pool: Ipv4Pool,
    endpoint: u32,
    parse: F,
    result: Result<FakeIpDirectory, DirectoryError>,
) -> bool {
    match result {
        Ok(directory) => {
            &&& directory.wf()
            &&& directory@.pool == pool
            &&& directory@.endpoint == endpoint
            &&& directory@.entries.len() == records.len() / (record::RECORD_LEN as nat)
            &&& read_entries(records, pool, endpoint, parse, directory@.entries)
        },
        Err(error) => exists|entries: Seq<(u32, Seq<u8>)>| #[trigger]
            stops_at(records, pool, endpoint, parse, entries, error),
    }
}

}
