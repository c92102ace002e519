//! The receive loop of a raw socket, one decision at a time.
use crate::raw::error::RawError;
use crate::raw::receive::MAX_DECODE_REJECTS_PER_POLL;
use vstd::prelude::*;

verus! {

/// One receive call: how many slots it may fill, how many it has filled, and how many
/// packets it may still reject.
#[derive(Clone, Copy, Debug, PartialEq, Eq, Structural)]
pub struct RecvPoll {
    pub slots: usize,
    pub received: usize,
    pub reject_budget: usize,
}

/// What the adapter does next.
#[derive(Clone, Copy, Debug, PartialEq, Eq, Structural)]
pub enum RecvStep {
    /// Fill the next slot from the packets at hand.
    FillSlot,
    /// Ask the system for more packets.
    AwaitInput,
    /// Return this many filled slots.
    Return(usize),
    /// Ask to be polled again, and return this many filled slots, or nothing yet where
    /// there are none.
    Yield(usize),
    /// Nothing has arrived; wait.
    Pending,
    /// Return the system's error.
    Fail,
}

/// What the system answered.
#[derive(Clone, Copy, Debug, PartialEq, Eq, Structural)]
pub enum InputEvent {
    /// The socket is not readable; the adapter is woken when it is.
    NotReady,
    /// The system call failed.
    Failed,
    /// The system call gave this many packets.
    Received(usize),
    /// The socket was readable but had nothing to give.
    WouldBlock,
}

/// What to return where nothing more can be had right now.
pub open spec fn settle(received: usize) -> RecvStep {
    if received > 0 {
        RecvStep::Return(received)
    } else {
        RecvStep::Pending
    }
}

/// What to do with the system's answer to a receive call.
pub open spec fn input_step(received: usize, event: InputEvent) -> RecvStep {
    match event {
        InputEvent::NotReady => settle(received),
        InputEvent::Failed => RecvStep::Fail,
        InputEvent::Received(count) => if count > 0 || received == 0 {
            RecvStep::FillSlot
        } else {
            RecvStep::Return(received)
        },
        InputEvent::WouldBlock => if received == 0 {
            RecvStep::FillSlot
        } else {
            RecvStep::Return(received)
        },
    }
}

/// What to do with the system's answer where packets come out of a ring. A call that has no
/// slot left asks again as long as the ring has a frame.
pub open spec fn ring_input_step(slots: usize, received: usize, event: InputEvent) -> RecvStep {
    match event {
        InputEvent::NotReady => settle(received),
        InputEvent::Failed => RecvStep::Fail,
        InputEvent::Received(_) => if received < slots {
            RecvStep::FillSlot
        } else {
            RecvStep::AwaitInput
        },
        InputEvent::WouldBlock => settle(received),
    }
}

impl RecvPoll {
    /// There is a slot left to fill.
    pub open spec fn wf(&self) -> bool {
        self.received < self.slots
    }

    /// Begins a receive call with the given numbers of buffers and metadata entries.
    pub fn begin(buffers: usize, entries: usize) -> (result: Result<RecvPoll, RawError>)
        ensures
            match result {
                Ok(poll) => buffers > 0 && entries > 0 && poll.wf() && poll == (RecvPoll {
                    slots: if buffers < entries {
                        buffers
                    } else {
                        entries
                    },
                    received: 0,
                    reject_budget: MAX_DECODE_REJECTS_PER_POLL,
                }),
                Err(error) => (buffers == 0 || entries == 0) && error == RawError::NoReceiveBuffer,
            },
    {
        if buffers == 0 || entries == 0 {
            return Err(RawError::NoReceiveBuffer);
        }
        let slots: usize = if buffers < entries {
            buffers
        } else {
            entries
        };
        Ok(RecvPoll { slots, received: 0, reject_budget: MAX_DECODE_REJECTS_PER_POLL })
    }

    /// What to do after a slot was filled, or nothing was found to fill it with.
    pub fn after_slot(&mut self, filled: bool, reject_budget: usize) -> (step: RecvStep)
        requires
            old(self).wf(),
        ensures
            ({
                let received = (old(self).received + (if filled {
                    1int
                } else {
                    0
                })) as usize;
                &&& *final(self) == (RecvPoll { slots: old(self).slots, received, reject_budget })
                &&& step == (if filled {
                    if received == old(self).slots {
                        RecvStep::Return(received)
                    } else {
                        RecvStep::FillSlot
                    }
                } else if reject_budget == 0 {
                    RecvStep::Yield(received)
                } else {
                    RecvStep::AwaitInput
                })
                &&& !(step is Return) ==> final(self).wf()
            }),
    {
        self.reject_budget = reject_budget;
        if filled {
            self.received = self.received + 1;
            if self.received == self.slots {
                RecvStep::Return(self.received)
            } else {
                RecvStep::FillSlot
            }
        } else if reject_budget == 0 {
            RecvStep::Yield(self.received)
        } else {
            RecvStep::AwaitInput
        }
    }

    /// What to do after a slot was filled out of a ring, or nothing was found to fill it
    /// with. A call that has filled every slot still asks the system before it returns.
    pub fn after_ring_slot(&mut self, filled: bool, reject_budget: usize) -> (step: RecvStep)
        requires
            old(self).wf(),
        ensures
            ({
                let received = (old(self).received + (if filled {
                    1int
                } else {
                    0
                })) as usize;
                &&& *final(self) == (RecvPoll { slots: old(self).slots, received, reject_budget })
                &&& step == (if filled && received < old(self).slots {
                    RecvStep::FillSlot
                } else if reject_budget == 0 {
                    RecvStep::Yield(received)
                } else {
                    RecvStep::AwaitInput
                })
                &&& step is FillSlot ==> final(self).wf()
            }),
    {
        self.reject_budget = reject_budget;
        if filled {
            self.received = self.received + 1;
            if self.received < self.slots {
                return RecvStep::FillSlot;
            }
        }
        if reject_budget == 0 {
            RecvStep::Yield(self.received)
        } else {
            RecvStep::AwaitInput
        }
    }

    /// What to do with the system's answer to a receive call. Packets, or another try
    /// where nothing was received yet, lead back to filling slots.
    pub fn after_input(&self, event: InputEvent) -> (step: RecvStep)
        ensures
            step == input_step(self.received, event),
    {
        match event {
            InputEvent::NotReady => if self.received > 0 {
                RecvStep::Return(self.received)
            } else {
                RecvStep::Pending
            },
            InputEvent::Failed => RecvStep::Fail,
            InputEvent::Received(count) => if count > 0 || self.received == 0 {
                RecvStep::FillSlot
            } else {
                RecvStep::Return(self.received)
            },
            InputEvent::WouldBlock => if self.received == 0 {
                RecvStep::FillSlot
            } else {
                RecvStep::Return(self.received)
            },
        }
    }

    /// What to do with the system's answer where packets come out of a ring: a ring
    /// without a frame ends the call.
    pub fn after_ring_input(&self, event: InputEvent) -> (step: RecvStep)
        ensures
            step == ring_input_step(self.slots, self.received, event),
            step is FillSlot ==> self.wf(),
    {
        match event {
            InputEvent::Failed => RecvStep::Fail,
            InputEvent::Received(_) => if self.received < self.slots {
                RecvStep::FillSlot
            } else {
                RecvStep::AwaitInput
            },
            InputEvent::NotReady | InputEvent::WouldBlock => if self.received > 0 {
                RecvStep::Return(self.received)
            } else {
                RecvStep::Pending
            },
        }
    }
}

/// A receive call that has filled a slot never ends without handing it over, unless the
/// system fails: it goes on or returns what it has.
pub proof fn law_filled_slots_are_returned(slots: usize, received: usize, event: InputEvent)
    requires
        received > 0,
        event != InputEvent::Failed,
    ensures
        input_step(received, event) == RecvStep::FillSlot || input_step(received, event) == RecvStep::Return(received),
        ring_input_step(slots, received, event) == RecvStep::Return(received) || ring_input_step(slots, received, event)
            == (if received < slots {
            RecvStep::FillSlot
        } else {
            RecvStep::AwaitInput
        }),
{
}

}
