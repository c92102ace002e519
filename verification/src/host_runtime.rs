//! Host-driven runtime for synchronous and FFI integrations: which task runs when.
use crate::config::duration::Duration;
use std::collections::VecDeque;
use vstd::prelude::*;

verus! {

/// Host clock, drive-ownership, shutdown, and task-containment errors.
#[derive(Clone, Copy, Debug, PartialEq, Eq, Structural)]
#[non_exhaustive]
pub enum HostRuntimeError {
    /// A drive call supplied elapsed time earlier than the previous call.
    TimeWentBackwards,
    /// Elapsed time cannot be represented by the platform monotonic clock.
    TimeOutsideRange,
    /// Two drive or shutdown calls overlapped.
    ConcurrentDrive,
    /// Shutdown has started or completed.
    Closed,
    /// A task or task destructor panicked and was contained.
    TaskPanicked,
}

/// A timer: when it is due, as time since the start of the runtime, and whether somebody
/// waits for it.
#[derive(Clone, Copy, Debug, PartialEq, Eq, Structural)]
pub struct Timer {
    /// Which timer it is.
    pub id: u64,
    /// When it is due.
    pub deadline: Duration,
    /// Whether somebody waits for it.
    pub waiting: bool,
}

/// What a poll of a task came to.
#[derive(Clone, Copy, Debug, PartialEq, Eq, Structural)]
pub enum TaskOutcome {
    /// The task is not done.
    Pending,
    /// The task was done before, and nothing was polled.
    Absent,
    /// The task is done.
    Done,
    /// The task is done, and its destructor panicked.
    DoneThenPanicked,
    /// The task panicked.
    Panicked,
}

/// A bounded executor advanced by the host's monotonic clock.
///
/// The host begins a drive after external I/O becomes ready and at
/// [`HostRuntime::next_timer`], polls the tasks that [`HostRuntime::next_task`] names, and
/// shuts the runtime down before releasing the owning engine.
#[derive(Debug)]
pub struct HostRuntime {
    elapsed: Duration,
    driving: bool,
    stopped: bool,
    processed: usize,
    budget: usize,
    ready: VecDeque<u64>,
    tasks: Vec<u64>,
    timers: Vec<Timer>,
    next_id: u64,
}

/// The content of a runtime.
#[verifier::ext_equal]
pub ghost struct RuntimeModel {
    /// The time since the start.
    pub elapsed: Duration,
    /// Whether a drive is under way.
    pub driving: bool,
    /// Whether the runtime is shut down.
    pub stopped: bool,
    /// How many ready-queue entries the current drive took.
    pub processed: int,
    /// How many it takes at most.
    pub budget: int,
    /// The tasks that are ready, the oldest first.
    pub ready: Seq<u64>,
    /// The tasks that are not done.
    pub tasks: Seq<u64>,
    /// The timers.
    pub timers: Seq<Timer>,
    /// The next task or timer.
    pub next_id: u64,
}

impl View for HostRuntime {
    type V = RuntimeModel;

    closed spec fn view(&self) -> RuntimeModel {
        RuntimeModel {
            elapsed: self.elapsed,
            driving: self.driving,
            stopped: self.stopped,
            processed: self.processed as int,
            budget: self.budget as int,
            ready: self.ready@,
            tasks: self.tasks@,
            timers: self.timers@,
            next_id: self.next_id,
        }
    }
}

/// No time.
pub open spec fn no_time() -> Duration {
    Duration { seconds: 0, nanoseconds: 0 }
}

/// A runtime without tasks, at time zero.
pub open spec fn fresh_runtime() -> RuntimeModel {
    RuntimeModel {
        elapsed: no_time(),
        driving: false,
        stopped: false,
        processed: 0,
        budget: 0,
        ready: Seq::empty(),
        tasks: Seq::empty(),
        timers: Seq::empty(),
        next_id: 0,
    }
}

impl RuntimeModel {
    /// No task is ready twice, tasks and timers are told apart by their numbers, and a
    /// drive stays within its budget.
    pub open spec fn valid(self) -> bool {
        &&& self.elapsed.wf()
        &&& self.ready.no_duplicates()
        &&& self.tasks.no_duplicates()
        &&& forall|index: int| 0 <= index < self.tasks.len() ==> #[trigger] self.tasks[index] < self.next_id
        &&& forall|index: int| 0 <= index < self.ready.len() ==> #[trigger] self.ready[index] < self.next_id
        &&& forall|left: int, right: int|
            0 <= left < right < self.timers.len() ==> (#[trigger] self.timers[left]).id != (
            #[trigger] self.timers[right]).id
        &&& forall|index: int|
            0 <= index < self.timers.len() ==> (#[trigger] self.timers[index]).id < self.next_id
                && self.timers[index].deadline.wf()
        &&& 0 <= self.processed <= self.budget
    }
}

/// The runtime after a task was made ready, unless it is, or the runtime is shut down.
pub open spec fn scheduled(state: RuntimeModel, task: u64) -> RuntimeModel {
    if state.stopped || state.ready.contains(task) {
        state
    } else {
        RuntimeModel { ready: state.ready.push(task), ..state }
    }
}

/// Whether the host has to be told that a task became ready: it was the first.
pub open spec fn schedule_notifies(state: RuntimeModel, task: u64) -> bool {
    !state.stopped && !state.ready.contains(task) && state.ready.len() == 0
}

/// What beginning a drive comes to.
pub open spec fn drive_begun(state: RuntimeModel, elapsed: Duration, representable: bool, max_tasks: int) -> Result<
    RuntimeModel,
    HostRuntimeError,
> {
    if state.driving {
        Err(HostRuntimeError::ConcurrentDrive)
    } else if state.stopped {
        Err(HostRuntimeError::Closed)
    } else if elapsed.length() < state.elapsed.length() {
        Err(HostRuntimeError::TimeWentBackwards)
    } else if !representable {
        Err(HostRuntimeError::TimeOutsideRange)
    } else {
        Ok(RuntimeModel { elapsed, driving: true, processed: 0, budget: max_tasks, ..state })
    }
}

/// Whether a timer is due and somebody waits for it.
pub open spec fn due(timer: Timer, now: Duration) -> bool {
    timer.waiting && timer.deadline.length() <= now.length()
}

/// The numbers of the timers that are due.
pub open spec fn due_ids(timers: Seq<Timer>, now: Duration) -> Seq<u64>
    decreases timers.len(),
{
    if timers.len() == 0 {
        Seq::empty()
    } else {
        let rest = due_ids(timers.drop_last(), now);
        if due(timers.last(), now) {
            rest.push(timers.last().id)
        } else {
            rest
        }
    }
}

/// The timers after those that are due were told.
pub open spec fn told(timers: Seq<Timer>, now: Duration) -> Seq<Timer> {
    timers.map_values(
        |timer: Timer|
            if due(timer, now) {
                Timer { waiting: false, ..timer }
            } else {
                timer
            },
    )
}

/// The earliest deadline that somebody waits for.
pub open spec fn earliest(timers: Seq<Timer>) -> Option<Duration>
    decreases timers.len(),
{
    if timers.len() == 0 {
        None
    } else {
        let last = timers.last();
        match earliest(timers.drop_last()) {
            None => if last.waiting {
                Some(last.deadline)
            } else {
                None
            },
            Some(found) => if last.waiting && last.deadline.length() < found.length() {
                Some(last.deadline)
            } else {
                Some(found)
            },
        }
    }
}

/// Some numbers without one.
pub open spec fn without(numbers: Seq<u64>, wanted: u64) -> Seq<u64>
    decreases numbers.len(),
{
    if numbers.len() == 0 {
        Seq::empty()
    } else if numbers.last() == wanted {
        without(numbers.drop_last(), wanted)
    } else {
        without(numbers.drop_last(), wanted).push(numbers.last())
    }
}

/// What a drive does next.
#[derive(Clone, Copy, Debug, PartialEq, Eq, Structural)]
pub enum DriveStep {
    /// A task is to be polled.
    Poll(u64),
    /// The drive is over.
    Finished {
        /// How many ready-queue entries it took.
        processed: usize,
        /// Whether the host has to be told that tasks are left.
        notify: bool,
    },
}

impl Default for HostRuntime {
    fn default() -> (runtime: Self)
        ensures
            runtime.wf(),
            runtime@ == fresh_runtime(),
    {
        HostRuntime::new()
    }
}

impl HostRuntime {
    /// The content is valid.
    pub closed spec fn wf(&self) -> bool {
        self@.valid()
    }

    /// What well-formed means for the content.
    pub proof fn lemma_wf(&self)
        requires
            self.wf(),
        ensures
            self@.valid(),
    {
    }

    /// A runtime without tasks, at time zero.
    pub fn new() -> (runtime: Self)
        ensures
            runtime.wf(),
            runtime@ == fresh_runtime(),
    {
        HostRuntime {
            elapsed: Duration { seconds: 0, nanoseconds: 0 },
            driving: false,
            stopped: false,
            processed: 0,
            budget: 0,
            ready: VecDeque::new(),
            tasks: Vec::new(),
            timers: Vec::new(),
            next_id: 0,
        }
    }

    fn is_ready(&self, task: u64) -> (ready: bool)
        ensures
            ready == self@.ready.contains(task),
    {
        let mut at: usize = 0;
        while at < self.ready.len()
            invariant
                at <= self.ready@.len(),
                forall|index: int| 0 <= index < at ==> #[trigger] self.ready@[index] != task,
            decreases self.ready@.len() - at,
        {
            if self.ready[at] == task {
                assert(self.ready@[at as int] == task);
                return true;
            }
            at = at + 1;
        }
        false
    }

    /// Makes a task ready. The result says whether the host has to be told.
    pub fn schedule(&mut self, task: u64) -> (notify: bool)
        requires
            old(self).wf(),
            task < old(self)@.next_id,
        ensures
            final(self).wf(),
            final(self)@ == scheduled(old(self)@, task),
            notify == schedule_notifies(old(self)@, task),
    {
        if self.is_ready(task) || self.stopped {
            return false;
        }
        let was_empty: bool = self.ready.len() == 0;
        let ghost before = self.ready@;
        self.ready.push_back(task);
        proof {
            let after = self.ready@;
            assert forall|left: int, right: int|
                0 <= left < after.len() && 0 <= right < after.len() && left != right implies after[left]
                != after[right] by {
                if left < before.len() && right < before.len() {
                    assert(before[left] != before[right]);
                } else if left < before.len() {
                    assert(before.contains(before[left]));
                } else {
                    assert(before.contains(before[right]));
                }
            }
            assert(after.no_duplicates());
            assert(self@ == scheduled(old(self)@, task));
        }
        was_empty
    }

    /// Takes up a new task and makes it ready. The result is its number, and whether the
    /// host has to be told.
    pub fn spawn(&mut self) -> (result: Result<(u64, bool), HostRuntimeError>)
        requires
            old(self).wf(),
            old(self)@.next_id < u64::MAX,
        ensures
            final(self).wf(),
            if old(self)@.stopped {
                result == Err::<(u64, bool), HostRuntimeError>(HostRuntimeError::Closed) && final(self)@ == old(self)@
            } else {
                let task = old(self)@.next_id;
                &&& result == Ok::<(u64, bool), HostRuntimeError>((task, old(self)@.ready.len() == 0))
                &&& final(self)@ == (RuntimeModel {
                    tasks: old(self)@.tasks.push(task),
                    ready: old(self)@.ready.push(task),
                    next_id: (task + 1) as u64,
                    ..old(self)@
                })
            },
    {
        if self.stopped {
            return Err(HostRuntimeError::Closed);
        }
        let task: u64 = self.next_id;
        self.next_id = task + 1;
        self.tasks.push(task);
        assert(!old(self)@.ready.contains(task));
        let notify: bool = self.schedule(task);
        Ok((task, notify))
    }

    /// Begins a drive of at most `max_tasks` ready-queue entries, after advancing the clock.
    /// `elapsed` is measured from this runtime's creation and must never decrease;
    /// `representable` says whether the platform's clock has that time. The result names the
    /// timers that are due.
    pub fn begin_drive(&mut self, elapsed: Duration, representable: bool, max_tasks: usize) -> (result: Result<
        Vec<u64>,
        HostRuntimeError,
    >)
        requires
            old(self).wf(),
            elapsed.wf(),
        ensures
            final(self).wf(),
            match drive_begun(old(self)@, elapsed, representable, max_tasks as int) {
                Err(error) => result == Err::<Vec<u64>, HostRuntimeError>(error) && final(self)@ == old(self)@,
                Ok(state) => result matches Ok(ids) && ids@ == due_ids(state.timers, elapsed) && final(self)@ == (
                RuntimeModel { timers: told(state.timers, elapsed), ..state }),
            },
    {
        if self.driving {
            return Err(HostRuntimeError::ConcurrentDrive);
        }
        if self.stopped {
            return Err(HostRuntimeError::Closed);
        }
        if elapsed.is_shorter(&self.elapsed) {
            return Err(HostRuntimeError::TimeWentBackwards);
        }
        if !representable {
            return Err(HostRuntimeError::TimeOutsideRange);
        }
        self.elapsed = elapsed;
        self.driving = true;
        self.processed = 0;
        self.budget = max_tasks;
        Ok(self.wake_due_timers(elapsed))
    }

    fn wake_due_timers(&mut self, now: Duration) -> (ids: Vec<u64>)
        requires
            old(self).wf(),
            now.wf(),
        ensures
            final(self).wf(),
            ids@ == due_ids(old(self)@.timers, now),
            final(self)@ == (RuntimeModel { timers: told(old(self)@.timers, now), ..old(self)@ }),
    {
        let mut ids: Vec<u64> = Vec::new();
        let mut at: usize = 0;
        let ghost all = self.timers@;
        assert(all.take(0) =~= Seq::empty());
        while at < self.timers.len()
            invariant
                at <= all.len(),
                self.timers@.len() == all.len(),
                now.wf(),
                forall|index: int| 0 <= index < all.len() ==> (#[trigger] all[index]).deadline.wf(),
                ids@ == due_ids(all.take(at as int), now),
                forall|index: int| 0 <= index < at ==> #[trigger] self.timers@[index] == told(all, now)[index],
                forall|index: int| at <= index < all.len() ==> #[trigger] self.timers@[index] == all[index],
                self@ == (RuntimeModel { timers: self.timers@, ..old(self)@ }),
                all == old(self)@.timers,
                old(self).wf(),
            decreases all.len() - at,
        {
            let timer: Timer = self.timers[at];
            assert(all.take(at + 1).drop_last() =~= all.take(at as int));
            assert(all.take(at + 1).last() == timer);
            if timer.waiting && !now.is_shorter(&timer.deadline) {
                ids.push(timer.id);
                self.timers.set(at, Timer { id: timer.id, deadline: timer.deadline, waiting: false });
            }
            at = at + 1;
        }
        assert(all.take(at as int) =~= all);
        assert(self.timers@ =~= told(all, now));
        ids
    }

    /// The task that the drive polls next; without one, or with the budget used up, the
    /// drive is over.
    pub fn next_task(&mut self) -> (step: DriveStep)
        requires
            old(self).wf(),
        ensures
            final(self).wf(),
            if old(self)@.processed < old(self)@.budget && old(self)@.ready.len() > 0 {
                &&& step == DriveStep::Poll(old(self)@.ready[0])
                &&& final(self)@ == (RuntimeModel {
                    ready: old(self)@.ready.skip(1),
                    processed: old(self)@.processed + 1,
                    ..old(self)@
                })
            } else {
                &&& step == (DriveStep::Finished {
                    processed: old(self)@.processed as usize,
                    notify: old(self)@.processed == old(self)@.budget && old(self)@.ready.len() > 0,
                })
                &&& final(self)@ == (RuntimeModel { driving: false, ..old(self)@ })
            },
    {
        if self.processed < self.budget {
            let ghost before = self.ready@;
            if let Some(task) = self.ready.pop_front() {
                self.processed = self.processed + 1;
                proof {
                    assert(self.ready@ =~= before.skip(1));
                    assert forall|index: int| 0 <= index < self.ready@.len() implies #[trigger] self.ready@[index]
                        < self.next_id by {
                        assert(self.ready@[index] == before[index + 1]);
                    }
                    assert forall|left: int, right: int|
                        0 <= left < self.ready@.len() && 0 <= right < self.ready@.len() && left != right implies self.ready@[left]
                        != self.ready@[right] by {
                        assert(before[left + 1] != before[right + 1]);
                    }
                }
                return DriveStep::Poll(task);
            }
        }
        self.driving = false;
        DriveStep::Finished { processed: self.processed, notify: self.processed == self.budget && self.ready.len() > 0 }
    }

    /// Records what the poll of a task came to. A panic ends the drive.
    pub fn after_poll(&mut self, task: u64, outcome: TaskOutcome) -> (result: Result<(), HostRuntimeError>)
        requires
            old(self).wf(),
        ensures
            final(self).wf(),
            match outcome {
                TaskOutcome::Pending => result is Ok && final(self)@ == old(self)@,
                TaskOutcome::Absent => result is Ok && final(self)@ == old(self)@,
                TaskOutcome::Done => result is Ok && final(self)@ == (RuntimeModel {
                    tasks: without(old(self)@.tasks, task),
                    ..old(self)@
                }),
                _ => result == Err::<(), HostRuntimeError>(HostRuntimeError::TaskPanicked) && final(self)@ == (
                RuntimeModel { tasks: without(old(self)@.tasks, task), driving: false, ..old(self)@ }),
            },
    {
        match outcome {
            TaskOutcome::Pending => Ok(()),
            TaskOutcome::Absent => Ok(()),
            TaskOutcome::Done => {
                self.remove_task(task);
                Ok(())
            },
            _ => {
                self.remove_task(task);
                self.driving = false;
                Err(HostRuntimeError::TaskPanicked)
            },
        }
    }

    fn remove_task(&mut self, task: u64)
        requires
            old(self).wf(),
        ensures
            final(self).wf(),
            final(self)@ == (RuntimeModel { tasks: without(old(self)@.tasks, task), ..old(self)@ }),
    {
        let mut kept: Vec<u64> = Vec::new();
        let mut at: usize = 0;
        let ghost all = self.tasks@;
        assert(all.take(0) =~= Seq::empty());
        while at < self.tasks.len()
            invariant
                at <= all.len(),
                all == self.tasks@,
                kept@ == without(all.take(at as int), task),
                self@ == old(self)@,
            decreases all.len() - at,
        {
            let number: u64 = self.tasks[at];
            proof {
                assert(all.take(at + 1).drop_last() =~= all.take(at as int));
                assert(all.take(at + 1).last() == number);
            }
            if number != task {
                kept.push(number);
            }
            at = at + 1;
        }
        proof {
            assert(all.take(at as int) =~= all);
            lemma_without(all, task, self@.next_id);
        }
        self.tasks = kept;
    }

    /// The earliest time that somebody waits for, as time since the start.
    pub fn next_timer(&self) -> (deadline: Option<Duration>)
        requires
            self.wf(),
        ensures
            deadline == (if self@.stopped {
                None
            } else {
                earliest(self@.timers)
            }),
    {
        if self.stopped {
            return None;
        }
        let mut found: Option<Duration> = None;
        let mut at: usize = 0;
        let ghost all = self.timers@;
        assert(all.take(0) =~= Seq::empty());
        while at < self.timers.len()
            invariant
                at <= all.len(),
                all == self.timers@,
                self.wf(),
                found == earliest(all.take(at as int)),
                found matches Some(deadline) ==> deadline.wf(),
            decreases all.len() - at,
        {
            let timer: Timer = self.timers[at];
            assert(all.take(at + 1).drop_last() =~= all.take(at as int));
            assert(all.take(at + 1).last() == timer);
            assert(self@.timers[at as int].deadline.wf());
            if timer.waiting {
                match found {
                    None => {
                        found = Some(timer.deadline);
                    },
                    Some(current) => {
                        if timer.deadline.is_shorter(&current) {
                            found = Some(timer.deadline);
                        }
                    },
                }
            }
            at = at + 1;
        }
        assert(all.take(at as int) =~= all);
        found
    }

    /// Returns whether shutdown has started or completed.
    pub fn is_closed(&self) -> (closed: bool)
        ensures
            closed == self@.stopped,
    {
        self.stopped
    }

    /// Cancels every task and releases the timers. The result names the tasks that were not
    /// done. Calling this method more than once is allowed.
    pub fn shutdown(&mut self) -> (result: Result<Vec<u64>, HostRuntimeError>)
        requires
            old(self).wf(),
        ensures
            final(self).wf(),
            if old(self)@.driving {
                result == Err::<Vec<u64>, HostRuntimeError>(HostRuntimeError::ConcurrentDrive) && final(self)@
                    == old(self)@
            } else if old(self)@.stopped {
                result matches Ok(tasks) && tasks@ == Seq::<u64>::empty() && final(self)@ == old(self)@
            } else {
                result matches Ok(tasks) && tasks@ == old(self)@.tasks && final(self)@ == (RuntimeModel {
                    stopped: true,
                    ready: Seq::empty(),
                    tasks: Seq::empty(),
                    timers: Seq::empty(),
                    ..old(self)@
                })
            },
    {
        if self.driving {
            return Err(HostRuntimeError::ConcurrentDrive);
        }
        if self.stopped {
            return Ok(Vec::new());
        }
        self.stopped = true;
        self.ready = VecDeque::new();
        self.timers = Vec::new();
        let mut tasks: Vec<u64> = Vec::new();
        std::mem::swap(&mut tasks, &mut self.tasks);
        Ok(tasks)
    }

    /// Sets up a timer that nobody waits for yet.
    pub fn new_timer(&mut self, deadline: Duration) -> (id: u64)
        requires
            old(self).wf(),
            deadline.wf(),
            old(self)@.next_id < u64::MAX,
        ensures
            final(self).wf(),
            id == old(self)@.next_id,
            final(self)@ == (RuntimeModel {
                timers: old(self)@.timers.push(Timer { id, deadline, waiting: false }),
                next_id: (id + 1) as u64,
                ..old(self)@
            }),
    {
        let id: u64 = self.next_id;
        self.next_id = id + 1;
        self.timers.push(Timer { id, deadline, waiting: false });
        id
    }

    fn timer_position(&self, id: u64) -> (position: Option<usize>)
        ensures
            match position {
                Some(at) => at < self@.timers.len() && self@.timers[at as int].id == id,
                None => forall|index: int|
                    0 <= index < self@.timers.len() ==> (#[trigger] self@.timers[index]).id != id,
            },
    {
        let mut at: usize = 0;
        while at < self.timers.len()
            invariant
                at <= self.timers@.len(),
                forall|index: int| 0 <= index < at ==> (#[trigger] self.timers@[index]).id != id,
            decreases self.timers@.len() - at,
        {
            if self.timers[at].id == id {
                return Some(at);
            }
            at = at + 1;
        }
        None
    }

    /// Sets when a timer is due. The result says whether who waits for it has to be woken.
    pub fn reset_timer(&mut self, id: u64, deadline: Duration) -> (wake: bool)
        requires
            old(self).wf(),
            deadline.wf(),
        ensures
            final(self).wf(),
            timer_reset(old(self)@, id, deadline, wake, final(self)@),
    {
        match self.timer_position(id) {
            None => false,
            Some(at) => {
                let timer: Timer = self.timers[at];
                let passed: bool = !self.elapsed.is_shorter(&deadline);
                let wake: bool = passed && timer.waiting;
                self.timers.set(at, Timer { id, deadline, waiting: timer.waiting && !passed });
                assert(self@ == (RuntimeModel {
                    timers: old(self)@.timers.update(at as int, self@.timers[at as int]),
                    ..old(self)@
                }));
                assert(old(self)@.timers[at as int].id == id);
                wake
            },
        }
    }

    /// Asks whether a timer is due. If it is not, the caller waits for it.
    pub fn poll_timer(&mut self, id: u64) -> (ready: bool)
        requires
            old(self).wf(),
        ensures
            final(self).wf(),
            timer_polled(old(self)@, id, ready, final(self)@),
    {
        if self.stopped {
            return true;
        }
        match self.timer_position(id) {
            None => true,
            Some(at) => {
                let timer: Timer = self.timers[at];
                assert(self@.timers[at as int].deadline.wf());
                if !self.elapsed.is_shorter(&timer.deadline) {
                    return true;
                }
                self.timers.set(at, Timer { id, deadline: timer.deadline, waiting: true });
                assert(old(self)@.timers[at as int].id == id);
                false
            },
        }
    }

    /// Forgets a timer.
    pub fn drop_timer(&mut self, id: u64)
        requires
            old(self).wf(),
        ensures
            final(self).wf(),
            forall|index: int|
                0 <= index < final(self)@.timers.len() ==> (#[trigger] final(self)@.timers[index]).id != id,
            final(self)@ == (RuntimeModel { timers: final(self)@.timers, ..old(self)@ }),
            final(self)@.timers == old(self)@.timers || exists|at: int|
                0 <= at < old(self)@.timers.len() && (#[trigger] old(self)@.timers[at]).id == id
                    && final(self)@.timers == old(self)@.timers.remove(at),
    {
        match self.timer_position(id) {
            None => {},
            Some(at) => {
                let ghost before = self.timers@;
                self.timers.remove(at);
                proof {
                    let after = self.timers@;
                    assert(after =~= before.remove(at as int));
                    assert(before[at as int].id == id);
                    assert forall|index: int| 0 <= index < after.len() implies (#[trigger] after[index]).id != id by {
                        let source = if index < at {
                            index
                        } else {
                            index + 1
                        };
                        assert(after[index] == before[source]);
                        if source < at {
                            assert(before[source].id != before[at as int].id);
                        } else {
                            assert(before[at as int].id != before[source].id);
                        }
                    }
                    assert forall|left: int, right: int| 0 <= left < right < after.len() implies (
                    #[trigger] after[left]).id != (#[trigger] after[right]).id by {
                        let from = if left < at {
                            left
                        } else {
                            left + 1
                        };
                        let to = if right < at {
                            right
                        } else {
                            right + 1
                        };
                        assert(before[from].id != before[to].id);
                    }
                }
            },
        }
    }
}

proof fn lemma_without(numbers: Seq<u64>, wanted: u64, bound: u64)
    requires
        numbers.no_duplicates(),
        forall|index: int| 0 <= index < numbers.len() ==> #[trigger] numbers[index] < bound,
    ensures
        without(numbers, wanted).no_duplicates(),
        forall|index: int|
            0 <= index < without(numbers, wanted).len() ==> #[trigger] without(numbers, wanted)[index] < bound,
        forall|index: int|
            0 <= index < without(numbers, wanted).len() ==> numbers.contains(
                #[trigger] without(numbers, wanted)[index],
            ),
    decreases numbers.len(),
{
    if numbers.len() > 0 {
        let front = numbers.drop_last();
        let last = numbers.last();
        assert(front.no_duplicates());
        lemma_without(front, wanted, bound);
        let rest = without(front, wanted);
        let all = without(numbers, wanted);
        assert(numbers[numbers.len() - 1] == last);
        assert forall|index: int| 0 <= index < rest.len() implies #[trigger] rest[index] != last by {
            assert(front.contains(rest[index]));
            let at = choose|at: int| 0 <= at < front.len() && front[at] == rest[index];
            assert(numbers[at] == rest[index]);
        }
        assert forall|index: int| 0 <= index < all.len() implies numbers.contains(#[trigger] all[index]) by {
            if index < rest.len() {
                assert(all[index] == rest[index]);
                assert(front.contains(rest[index]));
                let at = choose|at: int| 0 <= at < front.len() && front[at] == rest[index];
                assert(numbers[at] == all[index]);
            } else {
                assert(numbers[numbers.len() - 1] == all[index]);
            }
        }
    }
}

/// Setting when a timer is due wakes who waits for it where that time has come.
pub open spec fn timer_reset(
    before: RuntimeModel,
    id: u64,
    deadline: Duration,
    wake: bool,
    after: RuntimeModel,
) -> bool {
    let passed = deadline.length() <= before.elapsed.length();
    if exists|at: int| 0 <= at < before.timers.len() && (#[trigger] before.timers[at]).id == id {
        exists|at: int|
            {
                &&& 0 <= at < before.timers.len()
                &&& (#[trigger] before.timers[at]).id == id
                &&& wake == (passed && before.timers[at].waiting)
                &&& after == (RuntimeModel {
                    timers: before.timers.update(
                        at,
                        Timer { id, deadline, waiting: before.timers[at].waiting && !passed },
                    ),
                    ..before
                })
            }
    } else {
        !wake && after == before
    }
}

/// A timer that is not due is waited for. One of a runtime that is shut down counts as due.
pub open spec fn timer_polled(before: RuntimeModel, id: u64, ready: bool, after: RuntimeModel) -> bool {
    if before.stopped || !exists|at: int| 0 <= at < before.timers.len() && (#[trigger] before.timers[at]).id == id {
        ready && after == before
    } else {
        exists|at: int|
            {
                &&& 0 <= at < before.timers.len()
                &&& (#[trigger] before.timers[at]).id == id
                &&& ready == (before.timers[at].deadline.length() <= before.elapsed.length())
                &&& after == if ready {
                    before
                } else {
                    RuntimeModel {
                        timers: before.timers.update(at, Timer { waiting: true, ..before.timers[at] }),
                        ..before
                    }
                }
            }
    }
}

/// Time never moves backwards: a drive that begins is at a time no earlier than the last,
/// and one that does not begin leaves the time as it was.
pub proof fn law_time_never_goes_back(state: RuntimeModel, elapsed: Duration, representable: bool, max_tasks: int)
    ensures
        match drive_begun(state, elapsed, representable, max_tasks) {
            Ok(next) => next.elapsed.length() >= state.elapsed.length() && next.elapsed == elapsed,
            Err(_) => true,
        },
        elapsed.length() < state.elapsed.length() ==> drive_begun(state, elapsed, representable, max_tasks) is Err,
{
}

/// A runtime that is shut down stays so: it begins no drive and makes no task ready.
pub proof fn law_shutdown_is_final(
    state: RuntimeModel,
    elapsed: Duration,
    representable: bool,
    max_tasks: int,
    task: u64,
)
    requires
        state.stopped,
    ensures
        drive_begun(state, elapsed, representable, max_tasks) is Err,
        scheduled(state, task) == state,
        !schedule_notifies(state, task),
{
}

/// A task that is made ready twice before it runs is polled once.
pub proof fn law_task_is_ready_at_most_once(state: RuntimeModel, task: u64)
    ensures
        scheduled(scheduled(state, task), task) == scheduled(state, task),
{
    assert(state.ready.push(task)[state.ready.len() as int] == task);
}

/// The next timer is one that somebody waits for, and nobody waits for an earlier one.
pub proof fn law_next_timer_is_the_earliest(timers: Seq<Timer>, index: int)
    requires
        0 <= index < timers.len(),
        timers[index].waiting,
    ensures
        earliest(timers) matches Some(found) && found.length() <= timers[index].deadline.length(),
    decreases timers.len(),
{
    if index < timers.len() - 1 {
        law_next_timer_is_the_earliest(timers.drop_last(), index);
    }
}

}
