//! The memory that recovery state may use, and the parts of it that were handed out.
use vstd::prelude::*;

verus! {

/// What can go wrong with the data that a peer sends.
#[derive(Clone, Copy, Debug, PartialEq, Eq, Structural)]
pub enum RecoveryError {
    /// An offset does not fit.
    OffsetOverflow,
    /// A range is empty, reversed, or behind what was sent.
    InvalidRange,
    /// There is no room for another range.
    RangeCapacity,
    /// The peer sent more than it may.
    FlowControl,
    /// The peer sent different bytes for one place.
    ContradictoryOverlap,
    /// The end of a flow does not agree with its data, or with another end.
    FinalOffset,
    /// There is no memory left.
    Capacity,
}

/// A bounded amount of memory shared by every decoder of an endpoint.
///
/// A budget counts what is held; it does not allocate. `id` tells budgets apart.
#[derive(Clone, Copy, Debug, PartialEq, Eq, Structural)]
pub struct RecoveryMemoryBudget {
    pub id: u64,
    pub limit: u64,
    pub used: u64,
}

/// Bytes that were taken out of a budget and not given back yet.
#[derive(Debug, PartialEq, Eq, Structural)]
pub struct RecoveryCharge {
    pub owner: u64,
    pub bytes: usize,
}

impl RecoveryMemoryBudget {
    /// The same budget with another amount in use.
    pub open spec fn with_used(self, used: int) -> RecoveryMemoryBudget {
        RecoveryMemoryBudget { id: self.id, limit: self.limit, used: used as u64 }
    }

    /// An unused budget of `limit` bytes.
    pub fn new(id: u64, limit: u32) -> (budget: Self)
        ensures
            budget == (RecoveryMemoryBudget { id, limit: limit as u64, used: 0 }),
    {
        RecoveryMemoryBudget { id, limit: limit as u64, used: 0 }
    }

    /// How many bytes are held.
    pub fn used(&self) -> (used: u64)
        ensures
            used == self.used,
    {
        self.used
    }

    /// Takes `bytes` out of the budget where they fit.
    pub fn reserve(&mut self, bytes: usize) -> (charge: Option<RecoveryCharge>)
        ensures
            charge == (if old(self).used + bytes <= old(self).limit {
                Some(RecoveryCharge { owner: old(self).id, bytes })
            } else {
                None
            }),
            *final(self) == (if charge is Some {
                old(self).with_used(old(self).used + bytes)
            } else {
                *old(self)
            }),
    {
        if self.used <= self.limit && bytes as u64 <= self.limit - self.used {
            self.used = self.used + bytes as u64;
            Some(RecoveryCharge { owner: self.id, bytes })
        } else {
            None
        }
    }

    /// Gives `bytes` back.
    pub fn release(&mut self, bytes: usize)
        requires
            bytes <= old(self).used,
        ensures
            *final(self) == old(self).with_used(old(self).used - bytes),
    {
        self.used = self.used - bytes as u64;
    }

    /// Raises a charge to at least `bytes`; a larger one stays as it is.
    pub fn grow(&mut self, charge: &mut RecoveryCharge, bytes: usize) -> (grown: bool)
        ensures
            grown == (bytes <= old(charge).bytes || old(self).used + (bytes - old(charge).bytes) <= old(self).limit),
            *final(charge) == (if grown && bytes > old(charge).bytes {
                RecoveryCharge { owner: old(charge).owner, bytes }
            } else {
                *old(charge)
            }),
            *final(self) == (if grown && bytes > old(charge).bytes {
                old(self).with_used(old(self).used + (bytes - old(charge).bytes))
            } else {
                *old(self)
            }),
    {
        if bytes <= charge.bytes {
            return true;
        }
        match self.reserve(bytes - charge.bytes) {
            Some(_) => {
                charge.bytes = bytes;
                true
            },
            None => false,
        }
    }

    /// Lowers a charge to at most `bytes`; a smaller one stays as it is.
    pub fn shrink(&mut self, charge: &mut RecoveryCharge, bytes: usize)
        requires
            old(charge).bytes <= old(self).used,
        ensures
            *final(charge) == (if bytes < old(charge).bytes {
                RecoveryCharge { owner: old(charge).owner, bytes }
            } else {
                *old(charge)
            }),
            *final(self) == (if bytes < old(charge).bytes {
                old(self).with_used(old(self).used - (old(charge).bytes - bytes))
            } else {
                *old(self)
            }),
    {
        if bytes < charge.bytes {
            self.release(charge.bytes - bytes);
            charge.bytes = bytes;
        }
    }

    /// Gives a whole charge back.
    pub fn discard(&mut self, charge: RecoveryCharge)
        requires
            charge.bytes <= old(self).used,
        ensures
            *final(self) == old(self).with_used(old(self).used - charge.bytes),
    {
        self.release(charge.bytes);
    }
}

impl RecoveryCharge {
    /// Hands `bytes` of the charge over to whoever holds them from now on.
    pub fn transfer(&mut self, bytes: usize) -> (done: bool)
        ensures
            done == (bytes <= old(self).bytes),
            *final(self) == (if done {
                RecoveryCharge { owner: old(self).owner, bytes: (old(self).bytes - bytes) as usize }
            } else {
                *old(self)
            }),
    {
        if bytes <= self.bytes {
            self.bytes = self.bytes - bytes;
            true
        } else {
            false
        }
    }

    /// Parts `bytes` from the charge.
    pub fn split(&mut self, bytes: usize) -> (part: Option<RecoveryCharge>)
        ensures
            part == (if bytes <= old(self).bytes {
                Some(RecoveryCharge { owner: old(self).owner, bytes })
            } else {
                None
            }),
            *final(self) == (if part is Some {
                RecoveryCharge { owner: old(self).owner, bytes: (old(self).bytes - bytes) as usize }
            } else {
                *old(self)
            }),
    {
        if bytes <= self.bytes {
            self.bytes = self.bytes - bytes;
            Some(RecoveryCharge { owner: self.owner, bytes })
        } else {
            None
        }
    }
}

}
