//! The flows of an engine, by their handles.
use vstd::prelude::*;

verus! {

/// A place for a flow. The handle stays when the flow leaves, until the place is used again.
#[derive(Debug)]
pub struct FlowSlot<F> {
    /// The handle of the flow.
    pub handle: u64,
    /// The flow.
    pub flow: Option<F>,
}

/// The flows of an engine.
#[derive(Debug)]
pub struct FlowTable<F> {
    /// The places.
    pub slots: Vec<FlowSlot<F>>,
}

/// The place of a handle among the first `end`: the first that has it.
pub open spec fn place_of<F>(slots: Seq<FlowSlot<F>>, handle: u64, end: int) -> Option<int>
    decreases end,
{
    if end <= 0 {
        None
    } else {
        match place_of(slots, handle, end - 1) {
            Some(at) => Some(at),
            None => if slots[end - 1].handle == handle {
                Some(end - 1)
            } else {
                None
            },
        }
    }
}

/// The first place without a flow among the first `end`.
pub open spec fn free_place<F>(slots: Seq<FlowSlot<F>>, end: int) -> Option<int>
    decreases end,
{
    if end <= 0 {
        None
    } else {
        match free_place(slots, end - 1) {
            Some(at) => Some(at),
            None => if slots[end - 1].flow is None {
                Some(end - 1)
            } else {
                None
            },
        }
    }
}

/// The flow of a handle.
pub open spec fn flow_of<F>(slots: Seq<FlowSlot<F>>, handle: u64) -> Option<F> {
    match place_of(slots, handle, slots.len() as int) {
        Some(at) => slots[at].flow,
        None => None,
    }
}

/// The places after a flow came in: it takes the first free one, or a new one.
pub open spec fn with_flow<F>(slots: Seq<FlowSlot<F>>, handle: u64, flow: F) -> Seq<FlowSlot<F>> {
    let slot = FlowSlot { handle, flow: Some(flow) };
    match free_place(slots, slots.len() as int) {
        Some(at) => slots.update(at, slot),
        None => slots.push(slot),
    }
}

/// The places after the flow of a handle left.
pub open spec fn without_flow<F>(slots: Seq<FlowSlot<F>>, handle: u64) -> Seq<FlowSlot<F>> {
    match place_of(slots, handle, slots.len() as int) {
        Some(at) => slots.update(at, FlowSlot { handle, flow: None }),
        None => slots,
    }
}

/// Whether no handle occurs twice.
pub open spec fn distinct<F>(slots: Seq<FlowSlot<F>>) -> bool {
    forall|left: int, right: int|
        0 <= left < right < slots.len() ==> (#[trigger] slots[left]).handle != (#[trigger] slots[right]).handle
}

/// Whether a handle was not given out before.
pub open spec fn fresh<F>(slots: Seq<FlowSlot<F>>, handle: u64) -> bool {
    forall|at: int| 0 <= at < slots.len() ==> (#[trigger] slots[at]).handle != handle
}

pub proof fn lemma_place<F>(slots: Seq<FlowSlot<F>>, handle: u64, end: int)
    requires
        0 <= end <= slots.len(),
    ensures
        match place_of(slots, handle, end) {
            Some(at) => 0 <= at < end && slots[at].handle == handle && forall|i: int|
                0 <= i < at ==> (#[trigger] slots[i]).handle != handle,
            None => forall|i: int| 0 <= i < end ==> (#[trigger] slots[i]).handle != handle,
        },
    decreases end,
{
    if end > 0 {
        lemma_place(slots, handle, end - 1);
    }
}

proof fn lemma_free<F>(slots: Seq<FlowSlot<F>>, end: int)
    requires
        0 <= end <= slots.len(),
    ensures
        match free_place(slots, end) {
            Some(at) => 0 <= at < end && slots[at].flow is None,
            None => forall|i: int| 0 <= i < end ==> (#[trigger] slots[i]).flow is Some,
        },
    decreases end,
{
    if end > 0 {
        lemma_free(slots, end - 1);
    }
}

proof fn lemma_place_is_first<F>(slots: Seq<FlowSlot<F>>, handle: u64, at: int, end: int)
    requires
        0 <= at < end <= slots.len(),
        slots[at].handle == handle,
        forall|i: int| 0 <= i < at ==> (#[trigger] slots[i]).handle != handle,
    ensures
        place_of(slots, handle, end) == Some(at),
    decreases end,
{
    lemma_place(slots, handle, end - 1);
    if at < end - 1 {
        lemma_place_is_first(slots, handle, at, end - 1);
    }
}

proof fn lemma_free_is_first<F>(slots: Seq<FlowSlot<F>>, at: int, end: int)
    requires
        0 <= at < end <= slots.len(),
        slots[at].flow is None,
        forall|i: int| 0 <= i < at ==> (#[trigger] slots[i]).flow is Some,
    ensures
        free_place(slots, end) == Some(at),
    decreases end,
{
    lemma_free(slots, end - 1);
    if at < end - 1 {
        lemma_free_is_first(slots, at, end - 1);
    }
}

/// A flow is found under its handle, and no other handle is affected. The handles stay
/// distinct as long as every new one is fresh.
pub proof fn law_flow_handles_are_not_confused<F>(slots: Seq<FlowSlot<F>>, handle: u64, flow: F, other: u64)
    requires
        distinct(slots),
        fresh(slots, handle),
    ensures
        distinct(with_flow(slots, handle, flow)),
        flow_of(with_flow(slots, handle, flow), handle) == Some(flow),
        other != handle ==> flow_of(with_flow(slots, handle, flow), other) == flow_of(slots, other),
{
    let after = with_flow(slots, handle, flow);
    let count = slots.len() as int;
    lemma_free(slots, count);
    lemma_place(slots, other, count);
    lemma_place(after, other, after.len() as int);
    lemma_place(after, handle, after.len() as int);
    let at = match free_place(slots, count) {
        Some(at) => at,
        None => count,
    };
    assert(after[at].handle == handle && after[at].flow == Some(flow));
    lemma_place_is_first(after, handle, at, after.len() as int);
    if other != handle {
        match place_of(slots, other, count) {
            Some(place) => {
                if place != at {
                    assert(after[place] == slots[place]);
                    lemma_place_is_first(after, other, place, after.len() as int);
                } else {
                    assert forall|i: int| 0 <= i < after.len() implies (#[trigger] after[i]).handle != other by {
                        if i != at {
                            assert(after[i] == slots[i]);
                        }
                    }
                }
            },
            None => {
                assert forall|i: int| 0 <= i < after.len() implies (#[trigger] after[i]).handle != other by {
                    if i != at {
                        assert(after[i] == slots[i]);
                    }
                }
            },
        }
    }
}

/// A flow that was taken out is not found again, and no other flow is affected.
pub proof fn law_closed_flow_stays_closed<F>(slots: Seq<FlowSlot<F>>, handle: u64, other: u64)
    requires
        distinct(slots),
    ensures
        distinct(without_flow(slots, handle)),
        flow_of(without_flow(slots, handle), handle) is None,
        other != handle ==> flow_of(without_flow(slots, handle), other) == flow_of(slots, other),
{
    let after = without_flow(slots, handle);
    let count = slots.len() as int;
    lemma_place(slots, handle, count);
    lemma_place(slots, other, count);
    lemma_place(after, other, count);
    lemma_place(after, handle, count);
    assert forall|i: int| 0 <= i < count implies (#[trigger] after[i]).handle == slots[i].handle by {}
    if let Some(at) = place_of(slots, handle, count) {
        lemma_place_is_first(after, handle, at, count);
    }
    if other != handle {
        if let Some(place) = place_of(slots, other, count) {
            lemma_place_is_first(after, other, place, count);
        }
    }
}

impl<F> FlowTable<F> {
    /// A table without flows.
    pub fn new() -> (table: Self)
        ensures
            table.slots@ == Seq::<FlowSlot<F>>::empty(),
    {
        FlowTable { slots: Vec::new() }
    }

    /// Puts a flow in under a handle.
    pub fn insert_flow(&mut self, handle: u64, flow: F)
        ensures
            final(self).slots@ == with_flow(old(self).slots@, handle, flow),
    {
        let mut at: usize = 0;
        while at < self.slots.len()
            invariant
                at <= self.slots@.len(),
                self.slots@ == old(self).slots@,
                forall|i: int| 0 <= i < at ==> (#[trigger] self.slots@[i]).flow is Some,
            decreases self.slots@.len() - at,
        {
            if self.slots[at].flow.is_none() {
                proof {
                    lemma_free_is_first(self.slots@, at as int, self.slots@.len() as int);
                }
                self.slots.set(at, FlowSlot { handle, flow: Some(flow) });
                return ;
            }
            at += 1;
        }
        proof {
            lemma_free(self.slots@, self.slots@.len() as int);
        }
        self.slots.push(FlowSlot { handle, flow: Some(flow) });
    }

    /// The place of a handle.
    fn place(&self, handle: u64) -> (place: Option<usize>)
        ensures
            match place {
                Some(at) => place_of(self.slots@, handle, self.slots@.len() as int) == Some(at as int) && at
                    < self.slots@.len() && self.slots@[at as int].handle == handle,
                None => place_of(self.slots@, handle, self.slots@.len() as int) is None,
            },
    {
        let mut at: usize = 0;
        while at < self.slots.len()
            invariant
                at <= self.slots@.len(),
                forall|i: int| 0 <= i < at ==> (#[trigger] self.slots@[i]).handle != handle,
            decreases self.slots@.len() - at,
        {
            if self.slots[at].handle == handle {
                proof {
                    lemma_place_is_first(self.slots@, handle, at as int, self.slots@.len() as int);
                }
                return Some(at);
            }
            at += 1;
        }
        proof {
            lemma_place(self.slots@, handle, self.slots@.len() as int);
        }
        None
    }

    /// The flow of a handle, to be used in place.
    pub fn flow_mut(&mut self, handle: u64) -> (flow: Option<&mut F>)
        ensures
            match flow {
                Some(found) => {
                    &&& flow_of(old(self).slots@, handle) == Some(*found)
                    &&& place_of(old(self).slots@, handle, old(self).slots@.len() as int) matches Some(at)
                        && final(self).slots@ == old(self).slots@.update(
                        at,
                        FlowSlot { handle, flow: Some(*final(found)) },
                    )
                },
                None => flow_of(old(self).slots@, handle) is None && final(self).slots@ == old(self).slots@,
            },
    {
        match self.place(handle) {
            Some(at) => self.slots[at].flow.as_mut(),
            None => None,
        }
    }

    /// Takes the flow of a handle out.
    pub fn remove_flow(&mut self, handle: u64) -> (flow: Option<F>)
        ensures
            flow == flow_of(old(self).slots@, handle),
            final(self).slots@ == without_flow(old(self).slots@, handle),
    {
        match self.place(handle) {
            Some(at) => {
                let mut slot = FlowSlot { handle, flow: None };
                std::mem::swap(&mut slot, &mut self.slots[at]);
                slot.flow
            },
            None => None,
        }
    }
}

}
