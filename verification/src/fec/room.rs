//! Vectors whose memory is bounded.
use crate::fec::matrix::FecError;
use vstd::prelude::*;

verus! {

/// `Vec::capacity`: how many values fit without another allocation, which is at least
/// how many there are.
#[verifier::external_body]
fn vector_capacity<T>(values: &Vec<T>) -> (capacity: usize)
    ensures
        capacity >= values@.len(),
{
    values.capacity()
}

/// Whether the room that a vector reports is the room that was wanted, no more and no less.
pub fn capacity_granted(reported: usize, wanted: usize) -> (result: Result<(), FecError>)
    ensures
        result == (if reported == wanted {
            Ok::<(), FecError>(())
        } else {
            Err(FecError::MemoryCapacity)
        }),
{
    if reported == wanted {
        Ok(())
    } else {
        Err(FecError::MemoryCapacity)
    }
}

/// What asking for a vector of exactly `capacity` values comes to: values without a size are
/// refused; otherwise a vector of that capacity is made, and handed out if and only if that
/// is the capacity that it reports.
pub(crate) closed spec fn allocates<T>(capacity: usize, result: Result<Vec<T>, FecError>) -> bool {
    if vstd::layout::size_of::<T>() == 0 {
        result == Err::<Vec<T>, FecError>(FecError::MemoryCapacity)
    } else {
        exists|values: Vec<T>, reported: usize|
            #[trigger] call_ensures(Vec::<T>::with_capacity, (capacity,), values) && #[trigger] call_ensures(
                vector_capacity::<T>,
                (&values,),
                reported,
            ) && result == (if reported == capacity {
                Ok::<Vec<T>, FecError>(values)
            } else {
                Err(FecError::MemoryCapacity)
            })
    }
}

/// Whether the allocator did not grant a vector room for exactly `capacity` values when it
/// was asked.
pub closed spec fn room_refused<T>(capacity: usize) -> bool {
    allocates::<T>(capacity, Err(FecError::MemoryCapacity))
}

/// An empty vector that holds memory for exactly `capacity` values.
///
/// A vector of that capacity is asked for, and handed out where it reports just that
/// capacity. What it reports is the allocator's choice. Values without a size take no
/// memory, so there is nothing to hold for them.
pub(crate) fn bounded_vec<T>(capacity: usize) -> (result: Result<Vec<T>, FecError>)
    ensures
        allocates(capacity, result),
        match result {
            Ok(values) => values@.len() == 0,
            Err(error) => error == FecError::MemoryCapacity && room_refused::<T>(capacity),
        },
{
    if core::mem::size_of::<T>() == 0 {
        return Err(FecError::MemoryCapacity);
    }
    let values: Vec<T> = Vec::with_capacity(capacity);
    let reported: usize = vector_capacity(&values);
    match capacity_granted(reported, capacity) {
        Ok(()) => Ok(values),
        Err(error) => Err(error),
    }
}

/// Appends terms to an empty list.
pub(crate) fn extend_terms(target: &mut Vec<(u32, u8)>, source: &Vec<(u32, u8)>)
    requires
        old(target)@.len() == 0,
    ensures
        final(target)@ == source@,
{
    let mut at: usize = 0;
    while at < source.len()
        invariant
            at <= source@.len(),
            target@ == source@.take(at as int),
        decreases source@.len() - at,
    {
        target.push(source[at]);
        at += 1;
        assert(source@.take(at as int).drop_last() =~= source@.take(at - 1));
    }
    assert(source@.take(at as int) =~= source@);
}

/// Appends the bytes of a slice.
pub(crate) fn extend_bytes(target: &mut Vec<u8>, source: &[u8])
    ensures
        final(target)@ == old(target)@ + source@,
{
    let mut at: usize = 0;
    while at < source.len()
        invariant
            at <= source@.len(),
            target@ == old(target)@ + source@.take(at as int),
        decreases source@.len() - at,
    {
        target.push(source[at]);
        at += 1;
        assert(old(target)@ + source@.take(at as int) =~= (old(target)@ + source@.take(at - 1)).push(
            source@[at - 1],
        ));
    }
    assert(source@.take(at as int) =~= source@);
}

}
