//! What holds of directories and their journals.
use crate::fakeip::directory;
use crate::fakeip::directory::{DirectoryModel, FakeIpDirectory};
use crate::fakeip::error::DirectoryError;
use crate::fakeip::record;
use vstd::prelude::*;

verus! {

/// The journal of some entries, behind its header.
pub open spec fn journal_of(entries: Seq<(u32, Seq<u8>)>) -> Seq<u8>
    decreases entries.len(),
{
    if entries.len() == 0 {
        Seq::empty()
    } else {
        journal_of(entries.drop_last()) + record::record_of(entries.last().0, entries.last().1)
    }
}

/// Whether every host has a length that a record holds.
pub open spec fn recordable(entries: Seq<(u32, Seq<u8>)>) -> bool {
    forall|index: int| 0 <= index < entries.len() ==> 0 < (#[trigger] entries[index]).1.len() <= record::HOST_CAPACITY
}

proof fn lemma_journal_records(entries: Seq<(u32, Seq<u8>)>, index: int)
    requires
        recordable(entries),
        0 <= index <= entries.len(),
    ensures
        journal_of(entries).len() == entries.len() * record::RECORD_LEN,
        index < entries.len() ==> directory::record_at(journal_of(entries), index) == record::record_of(
            entries[index].0,
            entries[index].1,
        ),
    decreases entries.len(),
{
    if entries.len() > 0 {
        let front = entries.drop_last();
        let last = entries.last();
        assert(entries[entries.len() - 1] == last);
        record::law_written_record_is_read_back(last.0, last.1);
        assert(recordable(front)) by {
            assert forall|at: int| 0 <= at < front.len() implies 0 < (#[trigger] front[at]).1.len()
                <= record::HOST_CAPACITY by {
                assert(front[at] == entries[at]);
            }
        }
        if index < front.len() {
            lemma_journal_records(front, index);
            assert(front[index] == entries[index]);
            assert(directory::record_at(journal_of(entries), index) =~= directory::record_at(
                journal_of(front),
                index,
            ));
        } else {
            lemma_journal_records(front, 0);
            if index < entries.len() {
                assert(directory::record_at(journal_of(entries), index) =~= record::record_of(last.0, last.1));
            }
        }
    }
}

/// Whether every host is text that a parser takes for that host: the hosts are canonical.
pub open spec fn canonical<F: Fn(&str) -> Option<Vec<u8>>>(parse: F, entries: Seq<(u32, Seq<u8>)>) -> bool {
    &&& forall|index: int| 0 <= index < entries.len() ==> vstd::utf8::valid_utf8((#[trigger] entries[index]).1)
    &&& forall|index: int, text: &str, host: Option<Vec<u8>>|
        0 <= index < entries.len() && text@ == vstd::utf8::decode_utf8((#[trigger] entries[index]).1)
            && #[trigger] call_ensures(parse, (text,), host) ==> (host matches Some(found) && found@
            == entries[index].1)
}

proof fn lemma_entry_is_recovered<F: Fn(&str) -> Option<Vec<u8>>>(
    model: DirectoryModel,
    parse: F,
    index: int,
    found: (u32, Seq<u8>),
)
    requires
        model.valid(),
        recordable(model.entries),
        canonical(parse, model.entries),
        0 <= index < model.entries.len(),
        directory::entry_read(journal_of(model.entries), model.pool, model.endpoint, parse, index, found),
    ensures
        found == model.entries[index],
{
    let entry = model.entries[index];
    let records = journal_of(model.entries);
    lemma_journal_records(model.entries, index);
    record::law_written_record_is_read_back(entry.0, entry.1);
    let held = choose|held: Vec<u8>|
        held@ == found.1 && #[trigger] directory::reads_to(
            records,
            model.pool,
            model.endpoint,
            parse,
            index,
            found.0,
            held,
        );
    assert(record::parses(parse, entry.1, Some(held)));
    let text = choose|text: &str|
        text@ == vstd::utf8::decode_utf8(entry.1) && #[trigger] call_ensures(parse, (text,), Some(held));
    assert(held@ == entry.1);
}

/// What a directory wrote, it reads back: recovering the journal of its entries gives the
/// same entries, whatever the outcome of the reads was, as long as the parser takes each
/// canonical host for itself.
pub proof fn law_written_journal_is_recovered<F: Fn(&str) -> Option<Vec<u8>>>(
    model: DirectoryModel,
    parse: F,
    result: Result<FakeIpDirectory, DirectoryError>,
)
    requires
        model.valid(),
        model.pool.usable(model.endpoint),
        recordable(model.entries),
        canonical(parse, model.entries),
        model.entries.len() <= u64::MAX,
        directory::recovered(journal_of(model.entries), model.pool, model.endpoint, parse, result),
    ensures
        result matches Ok(read) && read@ == model,
{
    let records = journal_of(model.entries);
    let count = model.entries.len();
    lemma_journal_records(model.entries, 0);
    assert(records.len() / (record::RECORD_LEN as nat) == count) by {
        vstd::arithmetic::div_mod::lemma_div_multiples_vanish(count as int, record::RECORD_LEN as int);
        assert(count * record::RECORD_LEN == record::RECORD_LEN * count) by (nonlinear_arith);
    }
    match result {
        Ok(read) => {
            assert forall|index: int| 0 <= index < count implies read@.entries[index] == model.entries[index] by {
                let found = read@.entries[index];
                assert(directory::entry_read(records, model.pool, model.endpoint, parse, index, found));
                lemma_entry_is_recovered(model, parse, index, found);
            }
            assert(read@.entries =~= model.entries);
        },
        Err(error) => {
            let entries = choose|entries: Seq<(u32, Seq<u8>)>| #[trigger]
                directory::stops_at(records, model.pool, model.endpoint, parse, entries, error);
            let index = entries.len() as int;
            assert forall|at: int| 0 <= at < index implies entries[at] == model.entries[at] by {
                let found = entries[at];
                assert(directory::entry_read(records, model.pool, model.endpoint, parse, at, found));
                lemma_entry_is_recovered(model, parse, at, found);
            }
            assert(entries =~= model.entries.take(index));
            lemma_journal_records(model.entries, index);
            let entry = model.entries[index];
            record::law_written_record_is_read_back(entry.0, entry.1);
            match error {
                DirectoryError::CorruptRecord { index: at } => {
                    assert(record::parses(parse, entry.1, None));
                    let text = choose|text: &str|
                        text@ == vstd::utf8::decode_utf8(entry.1) && #[trigger] call_ensures(parse, (text,), None);
                    assert(false);
                },
                DirectoryError::ConflictingMapping { index: at } => {
                    let found = choose|found: (u32, Seq<u8>)| #[trigger]
                        directory::entry_read(records, model.pool, model.endpoint, parse, index, found)
                            && directory::conflicts(entries, found);
                    lemma_entry_is_recovered(model, parse, index, found);
                    law_new_entry_does_not_conflict(model.entries, index);
                    assert(false);
                },
                _ => {},
            }
        },
    }
}

/// An entry of a valid directory conflicts with none of those before it.
pub proof fn law_new_entry_does_not_conflict(entries: Seq<(u32, Seq<u8>)>, index: int)
    requires
        directory::distinct(entries),
        0 <= index < entries.len(),
    ensures
        !directory::conflicts(entries.take(index), entries[index]),
{
    let front = entries.take(index);
    directory::lemma_mapped_host(front, entries[index].0);
    directory::lemma_mapped_address(front, entries[index].1);
    assert forall|at: int| 0 <= at < front.len() implies (#[trigger] front[at]).0 != entries[index].0 && front[at].1
        != entries[index].1 by {
        assert(front[at] == entries[at]);
    }
}

/// Looking up by host and by address are inverse: a host has an address exactly where that
/// address has the host.
pub proof fn law_lookups_are_inverse(model: DirectoryModel, host: Seq<u8>, address: u32)
    requires
        model.valid(),
    ensures
        directory::mapped_address(model.entries, host) == Some(address) <==> directory::mapped_host(
            model.entries,
            address,
        ) == Some(host),
{
    directory::lemma_mapped_address(model.entries, host);
    directory::lemma_mapped_host(model.entries, address);
    if directory::mapped_address(model.entries, host) == Some(address) {
        let index = choose|index: int|
            0 <= index < model.entries.len() && #[trigger] model.entries[index] == (address, host);
        directory::lemma_entry_is_found(model.entries, index);
    }
    if directory::mapped_host(model.entries, address) == Some(host) {
        let index = choose|index: int|
            0 <= index < model.entries.len() && #[trigger] model.entries[index] == (address, host);
        directory::lemma_entry_is_found(model.entries, index);
    }
}

/// Mappings are stable: a new mapping changes no other host's address, and the new host
/// has the new address from then on.
pub proof fn law_mappings_are_stable(
    entries: Seq<(u32, Seq<u8>)>,
    address: u32,
    host: Seq<u8>,
    other: Seq<u8>,
)
    requires
        directory::mapped_address(entries, host) is None,
    ensures
        directory::mapped_address(entries.push((address, host)), host) == Some(address),
        other != host ==> directory::mapped_address(entries.push((address, host)), other)
            == directory::mapped_address(entries, other),
        directory::mapped_address(entries, other) is Some ==> directory::mapped_address(
            entries.push((address, host)),
            other,
        ) == directory::mapped_address(entries, other),
{
    assert(entries.push((address, host)).drop_last() =~= entries);
}

/// The next address is one of the pool that is neither reserved nor taken; there is none
/// only where every such address is taken.
pub proof fn law_pool_is_used_up_before_it_is_exhausted(model: DirectoryModel, address: u32)
    requires
        model.pool.usable(address),
        address != model.endpoint,
    ensures
        match model.next() {
            Some(next) => model.pool.usable(next) && next != model.endpoint && directory::mapped_host(
                model.entries,
                next,
            ) is None,
            None => directory::mapped_host(model.entries, address) is Some,
        },
{
    directory::lemma_first_free(model.pool, model.endpoint, model.entries, model.pool.network + 1);
}

}
