//! What holds over the calls of a host that drives the runtime.
use crate::config::duration::Duration;
use crate::host_runtime;
use crate::host_runtime::{DriveStep, HostRuntime, HostRuntimeError, TaskOutcome, Timer};
use vstd::prelude::*;

verus! {

/// A length of time in nanoseconds.
pub open spec fn nanoseconds(time: Duration) -> int {
    time.seconds * 1_000_000_000 + time.nanoseconds
}

/// Whether somebody waits for a timer with this number whose deadline is no later than `now`.
pub open spec fn awaited_by(timers: Seq<Timer>, id: u64, now: Duration) -> bool {
    exists|at: int|
        0 <= at < timers.len() && (#[trigger] timers[at]).id == id && timers[at].waiting && nanoseconds(
            timers[at].deadline,
        ) <= nanoseconds(now)
}

proof fn lemma_due_ids(timers: Seq<Timer>, now: Duration, id: u64)
    ensures
        host_runtime::due_ids(timers, now).contains(id) <==> awaited_by(timers, id, now),
    decreases timers.len(),
{
    if timers.len() > 0 {
        let rest = timers.drop_last();
        let ids = host_runtime::due_ids(rest, now);
        lemma_due_ids(rest, now, id);
        if awaited_by(rest, id, now) {
            let at = choose|at: int|
                0 <= at < rest.len() && (#[trigger] rest[at]).id == id && rest[at].waiting && nanoseconds(
                    rest[at].deadline,
                ) <= nanoseconds(now);
            assert(timers[at] == rest[at]);
        }
        if awaited_by(timers, id, now) && !awaited_by(rest, id, now) {
            let at = choose|at: int|
                0 <= at < timers.len() && (#[trigger] timers[at]).id == id && timers[at].waiting && nanoseconds(
                    timers[at].deadline,
                ) <= nanoseconds(now);
            if at < rest.len() {
                assert(rest[at] == timers[at]);
            }
        }
        let last = timers.last();
        if host_runtime::due(last, now) {
            let longer = ids.push(last.id);
            assert(longer[ids.len() as int] == last.id);
            if ids.contains(id) {
                let place = choose|place: int| 0 <= place < ids.len() && ids[place] == id;
                assert(longer[place] == id);
            }
            if longer.contains(id) && !ids.contains(id) {
                let place = choose|place: int| 0 <= place < longer.len() && longer[place] == id;
                if place < ids.len() {
                    assert(ids[place] == id);
                }
            }
            assert(timers[timers.len() - 1] == last);
        }
    }
}

/// A drive that begins at a time names exactly the timers that somebody waits for and whose
/// deadline, in nanoseconds, is no later than that time. Nobody waits for those any more;
/// all else about the timers stays.
pub proof fn law_drive_names_the_due_timers(
    runtime: &mut HostRuntime,
    elapsed: Duration,
    representable: bool,
    max_tasks: usize,
    ids: Vec<u64>,
    id: u64,
    index: int,
)
    requires
        call_ensures(
            HostRuntime::begin_drive,
            (runtime, elapsed, representable, max_tasks),
            Ok::<Vec<u64>, HostRuntimeError>(ids),
        ),
        0 <= index < old(runtime)@.timers.len(),
    ensures
        ids@.contains(id) <==> awaited_by(old(runtime)@.timers, id, elapsed),
        final(runtime)@.timers.len() == old(runtime)@.timers.len(),
        final(runtime)@.timers[index].id == old(runtime)@.timers[index].id,
        final(runtime)@.timers[index].deadline == old(runtime)@.timers[index].deadline,
        final(runtime)@.timers[index].waiting <==> old(runtime)@.timers[index].waiting && nanoseconds(
            old(runtime)@.timers[index].deadline,
        ) > nanoseconds(elapsed),
{
    lemma_due_ids(old(runtime)@.timers, elapsed, id);
}

proof fn lemma_earliest(timers: Seq<Timer>)
    ensures
        match host_runtime::earliest(timers) {
            None => forall|at: int| 0 <= at < timers.len() ==> !(#[trigger] timers[at]).waiting,
            Some(found) => {
                &&& exists|at: int| 0 <= at < timers.len() && (#[trigger] timers[at]).waiting
                    && timers[at].deadline == found
                &&& forall|at: int|
                    0 <= at < timers.len() && (#[trigger] timers[at]).waiting ==> nanoseconds(found) <= nanoseconds(
                        timers[at].deadline,
                    )
            },
        },
    decreases timers.len(),
{
    if timers.len() > 0 {
        let rest = timers.drop_last();
        lemma_earliest(rest);
        assert forall|at: int| 0 <= at < rest.len() implies rest[at] == timers[at] by {}
        match host_runtime::earliest(rest) {
            None => {
                assert forall|at: int| 0 <= at < rest.len() implies !(#[trigger] timers[at]).waiting by {
                    assert(!rest[at].waiting);
                }
            },
            Some(found) => {
                let at = choose|at: int| 0 <= at < rest.len() && (#[trigger] rest[at]).waiting
                    && rest[at].deadline == found;
                assert(timers[at].waiting && timers[at].deadline == found);
                assert forall|other: int| 0 <= other < rest.len() && (#[trigger] timers[other]).waiting
                    implies nanoseconds(
                    found,
                ) <= nanoseconds(timers[other].deadline) by {
                    assert(rest[other].waiting);
                }
            },
        }
        assert(timers[timers.len() - 1] == timers.last());
    }
}

/// The next timer is the one that decides when to drive: a drive at its deadline or later
/// names at least one timer, one before it names none; and where there is no next timer, no
/// drive names any.
pub proof fn law_drive_at_the_next_timer_names_one(
    runtime: &mut HostRuntime,
    next: Option<Duration>,
    elapsed: Duration,
    representable: bool,
    max_tasks: usize,
    ids: Vec<u64>,
)
    requires
        call_ensures(HostRuntime::next_timer, (&*old(runtime),), next),
        call_ensures(
            HostRuntime::begin_drive,
            (runtime, elapsed, representable, max_tasks),
            Ok::<Vec<u64>, HostRuntimeError>(ids),
        ),
    ensures
        ids@.len() > 0 <==> (next matches Some(deadline) && nanoseconds(deadline) <= nanoseconds(elapsed)),
{
    let timers = old(runtime)@.timers;
    lemma_earliest(timers);
    if next is Some && nanoseconds(next->0) <= nanoseconds(elapsed) {
        let at = choose|at: int| 0 <= at < timers.len() && (#[trigger] timers[at]).waiting
            && timers[at].deadline == next->0;
        assert(awaited_by(timers, timers[at].id, elapsed));
        lemma_due_ids(timers, elapsed, timers[at].id);
        assert(ids@.contains(timers[at].id));
    }
    if ids@.len() > 0 {
        assert(ids@.contains(ids@[0]));
        lemma_due_ids(timers, elapsed, ids@[0]);
        assert(awaited_by(timers, ids@[0], elapsed));
    }
}

/// The next timer of a runtime that runs is one that somebody waits for, and nobody waits for
/// an earlier one; there is none exactly where nobody waits.
pub proof fn law_next_timer_is_awaited(runtime: &HostRuntime, next: Option<Duration>, index: int)
    requires
        !runtime@.stopped,
        call_ensures(HostRuntime::next_timer, (runtime,), next),
    ensures
        0 <= index < runtime@.timers.len() && runtime@.timers[index].waiting ==> (next matches Some(deadline)
            && nanoseconds(deadline) <= nanoseconds(runtime@.timers[index].deadline)),
        next matches Some(deadline) ==> exists|at: int|
            0 <= at < runtime@.timers.len() && (#[trigger] runtime@.timers[at]).waiting && runtime@.timers[at].deadline
                == deadline,
{
    lemma_earliest(runtime@.timers);
}

/// A drive begins on every runtime that is neither driven nor shut down, at every time that
/// its clock can hold and that is no earlier than the last; otherwise it is refused with the
/// first reason that holds, and nothing changes.
pub proof fn law_drive_begins_when_idle_and_open(
    runtime: &mut HostRuntime,
    elapsed: Duration,
    representable: bool,
    max_tasks: usize,
    result: Result<Vec<u64>, HostRuntimeError>,
)
    requires
        call_ensures(HostRuntime::begin_drive, (runtime, elapsed, representable, max_tasks), result),
    ensures
        result is Ok <==> !old(runtime)@.driving && !old(runtime)@.stopped && representable && nanoseconds(
            old(runtime)@.elapsed,
        ) <= nanoseconds(elapsed),
        old(runtime)@.driving ==> result == Err::<Vec<u64>, HostRuntimeError>(HostRuntimeError::ConcurrentDrive),
        !old(runtime)@.driving && old(runtime)@.stopped ==> result == Err::<Vec<u64>, HostRuntimeError>(
            HostRuntimeError::Closed,
        ),
        !old(runtime)@.driving && !old(runtime)@.stopped && nanoseconds(elapsed) < nanoseconds(old(runtime)@.elapsed)
            ==> result == Err::<Vec<u64>, HostRuntimeError>(HostRuntimeError::TimeWentBackwards),
        !old(runtime)@.driving && !old(runtime)@.stopped && nanoseconds(elapsed) >= nanoseconds(old(runtime)@.elapsed)
            && !representable ==> result == Err::<Vec<u64>, HostRuntimeError>(HostRuntimeError::TimeOutsideRange),
        result is Err ==> final(runtime)@ == old(runtime)@,
        result is Ok ==> final(runtime)@.processed == 0 && final(runtime)@.budget == max_tasks,
        result is Ok ==> final(runtime)@.elapsed == elapsed && final(runtime)@.driving
            && final(runtime)@.ready == old(runtime)@.ready && final(runtime)@.tasks == old(runtime)@.tasks,
{
}

/// While one drive goes on no other begins; when it has finished the next one may begin, at
/// the same time or later.
pub proof fn law_one_drive_at_a_time(
    first: &mut HostRuntime,
    elapsed: Duration,
    representable: bool,
    max_tasks: usize,
    ids: Vec<u64>,
    second: &mut HostRuntime,
    elapsed_then: Duration,
    max_tasks_then: usize,
    refused: Result<Vec<u64>, HostRuntimeError>,
    finishing: &mut HostRuntime,
    processed: usize,
    notify: bool,
    third: &mut HostRuntime,
    accepted: Result<Vec<u64>, HostRuntimeError>,
)
    requires
        call_ensures(
            HostRuntime::begin_drive,
            (first, elapsed, representable, max_tasks),
            Ok::<Vec<u64>, HostRuntimeError>(ids),
        ),
        old(second)@ == final(first)@,
        call_ensures(HostRuntime::begin_drive, (second, elapsed_then, true, max_tasks_then), refused),
        old(finishing)@ == final(first)@,
        call_ensures(HostRuntime::next_task, (finishing,), (DriveStep::Finished { processed, notify })),
        old(third)@ == final(finishing)@,
        call_ensures(HostRuntime::begin_drive, (third, elapsed_then, true, max_tasks_then), accepted),
    ensures
        refused == Err::<Vec<u64>, HostRuntimeError>(HostRuntimeError::ConcurrentDrive),
        accepted is Ok <==> nanoseconds(elapsed_then) >= nanoseconds(elapsed),
{
}

/// A drive polls the tasks that are ready, the one that was made ready first before the
/// others, as long as its budget lasts; it finishes with the budget or with the last ready
/// task, says how many tasks it polled, and asks to be called again exactly where the budget
/// ended it.
pub proof fn law_drive_polls_in_order_within_its_budget(runtime: &mut HostRuntime, step: DriveStep)
    requires
        old(runtime)@.valid(),
        call_ensures(HostRuntime::next_task, (runtime,), step),
    ensures
        match step {
            DriveStep::Poll(task) => {
                &&& old(runtime)@.ready.first() == task
                &&& !final(runtime)@.ready.contains(task)
                &&& seq![task] + final(runtime)@.ready == old(runtime)@.ready
                &&& final(runtime)@.processed == old(runtime)@.processed + 1
                &&& final(runtime)@.processed <= old(runtime)@.budget
                &&& final(runtime)@.driving == old(runtime)@.driving
            },
            DriveStep::Finished { processed, notify } => {
                &&& processed == old(runtime)@.processed as usize
                &&& old(runtime)@.processed >= old(runtime)@.budget || old(runtime)@.ready.len() == 0
                &&& notify <==> old(runtime)@.ready.len() > 0
                &&& !final(runtime)@.driving
                &&& final(runtime)@.ready == old(runtime)@.ready
            },
        },
        final(runtime)@.budget == old(runtime)@.budget,
        final(runtime)@.tasks == old(runtime)@.tasks,
{
    if let DriveStep::Poll(task) = step {
        let ready = old(runtime)@.ready;
        assert(seq![task] + ready.skip(1) =~= ready);
        if ready.skip(1).contains(task) {
            let place = choose|place: int| 0 <= place < ready.skip(1).len() && ready.skip(1)[place] == task;
            assert(ready[place + 1] == ready[0]);
        }
    }
}

/// A drive that may poll no task polls none, and one that begins with ready tasks and a
/// budget polls the first of them at once.
pub proof fn law_first_step_of_a_drive(
    beginning: &mut HostRuntime,
    elapsed: Duration,
    representable: bool,
    max_tasks: usize,
    ids: Vec<u64>,
    going: &mut HostRuntime,
    step: DriveStep,
)
    requires
        call_ensures(
            HostRuntime::begin_drive,
            (beginning, elapsed, representable, max_tasks),
            Ok::<Vec<u64>, HostRuntimeError>(ids),
        ),
        old(going)@ == final(beginning)@,
        call_ensures(HostRuntime::next_task, (going,), step),
    ensures
        if max_tasks > 0 && old(beginning)@.ready.len() > 0 {
            step == DriveStep::Poll(old(beginning)@.ready[0])
        } else {
            step == (DriveStep::Finished { processed: 0, notify: old(beginning)@.ready.len() > 0 })
        },
{
}

/// A task that is made ready goes behind all others that are ready, unless it is ready
/// already or the runtime is shut down; the host is told exactly where nothing was ready.
pub proof fn law_ready_tasks_queue_up(runtime: &mut HostRuntime, task: u64, notify: bool)
    requires
        call_ensures(HostRuntime::schedule, (runtime, task), notify),
    ensures
        old(runtime)@.stopped || old(runtime)@.ready.contains(task) ==> final(runtime)@ == old(runtime)@ && !notify,
        !old(runtime)@.stopped && !old(runtime)@.ready.contains(task) ==> {
            &&& final(runtime)@.ready.drop_last() == old(runtime)@.ready
            &&& final(runtime)@.ready.last() == task
            &&& notify <==> old(runtime)@.ready.len() == 0
        },
        !old(runtime)@.stopped ==> final(runtime)@.ready.contains(task),
        final(runtime)@.tasks == old(runtime)@.tasks && final(runtime)@.timers == old(runtime)@.timers,
{
    let ready = old(runtime)@.ready;
    assert(ready.push(task).drop_last() =~= ready);
    assert(ready.push(task)[ready.len() as int] == task);
}

/// A task that is spawned gets a number that no task or timer had, belongs to the runtime, and
/// is ready behind all others; the host is told exactly where nothing was ready.
pub proof fn law_spawned_task_is_new_and_ready(runtime: &mut HostRuntime, task: u64, notify: bool)
    requires
        old(runtime)@.valid(),
        old(runtime)@.next_id < u64::MAX,
        call_ensures(HostRuntime::spawn, (runtime,), Ok::<(u64, bool), HostRuntimeError>((task, notify))),
    ensures
        !old(runtime)@.tasks.contains(task),
        !old(runtime)@.ready.contains(task),
        forall|at: int| 0 <= at < old(runtime)@.timers.len() ==> (#[trigger] old(runtime)@.timers[at]).id != task,
        final(runtime)@.tasks.contains(task),
        final(runtime)@.tasks.drop_last() == old(runtime)@.tasks,
        final(runtime)@.ready.last() == task,
        final(runtime)@.ready.drop_last() == old(runtime)@.ready,
        notify <==> old(runtime)@.ready.len() == 0,
{
    let before = old(runtime)@;
    assert(before.tasks.push(task)[before.tasks.len() as int] == task);
    assert(before.tasks.push(task).drop_last() =~= before.tasks);
    assert(before.ready.push(task).drop_last() =~= before.ready);
}

proof fn lemma_without(numbers: Seq<u64>, wanted: u64, number: u64)
    ensures
        host_runtime::without(numbers, wanted).contains(number) <==> numbers.contains(number) && number != wanted,
    decreases numbers.len(),
{
    if numbers.len() > 0 {
        let rest = numbers.drop_last();
        lemma_without(rest, wanted, number);
        let kept = host_runtime::without(rest, wanted);
        assert(numbers[numbers.len() - 1] == numbers.last());
        assert(kept.push(numbers.last())[kept.len() as int] == numbers.last());
        if rest.contains(number) {
            let at = choose|at: int| 0 <= at < rest.len() && rest[at] == number;
            assert(numbers[at] == number);
        }
        if numbers.contains(number) && number != numbers.last() {
            let at = choose|at: int| 0 <= at < numbers.len() && numbers[at] == number;
            assert(rest[at] == number);
        }
        if kept.contains(number) {
            let at = choose|at: int| 0 <= at < kept.len() && kept[at] == number;
            assert(kept.push(numbers.last())[at] == number);
        }
        if kept.push(numbers.last()).contains(number) && number != numbers.last() {
            let longer = kept.push(numbers.last());
            let at = choose|at: int| 0 <= at < longer.len() && longer[at] == number;
            assert(kept[at] == number);
        }
    }
}

/// A task that has ended, in whatever way, leaves the runtime, and every other task stays; one
/// that goes on stays. A task that panicked ends the drive with an error, so that the next
/// drive can begin.
pub proof fn law_ended_task_leaves(
    runtime: &mut HostRuntime,
    task: u64,
    outcome: TaskOutcome,
    result: Result<(), HostRuntimeError>,
    other: u64,
)
    requires
        call_ensures(HostRuntime::after_poll, (runtime, task, outcome), result),
    ensures
        outcome is Pending || outcome is Absent ==> final(runtime)@ == old(runtime)@,
        outcome is Done || outcome is DoneThenPanicked || outcome is Panicked ==> (final(runtime)@.tasks.contains(other)
            <==> old(runtime)@.tasks.contains(other) && other != task),
        result is Err <==> outcome is Panicked || outcome is DoneThenPanicked,
        result matches Err(error) ==> error == HostRuntimeError::TaskPanicked && !final(runtime)@.driving,
        result is Ok ==> final(runtime)@.driving == old(runtime)@.driving,
        final(runtime)@.ready == old(runtime)@.ready && final(runtime)@.timers == old(runtime)@.timers,
{
    lemma_without(old(runtime)@.tasks, task, other);
}

/// A runtime that is shut down hands back all of its tasks, and from then on spawns none,
/// begins no drive, makes nothing ready, and has no next timer; shutting it down again hands
/// back nothing. During a drive it cannot be shut down.
pub proof fn law_shutdown_hands_back_every_task(
    stopping: &mut HostRuntime,
    result: Result<Vec<u64>, HostRuntimeError>,
    again: &mut HostRuntime,
    result_then: Result<Vec<u64>, HostRuntimeError>,
    spawning: &mut HostRuntime,
    spawned: Result<(u64, bool), HostRuntimeError>,
    driving: &mut HostRuntime,
    elapsed: Duration,
    representable: bool,
    max_tasks: usize,
    driven: Result<Vec<u64>, HostRuntimeError>,
    next: Option<Duration>,
    closed: bool,
)
    requires
        call_ensures(HostRuntime::shutdown, (stopping,), result),
        old(again)@ == final(stopping)@,
        call_ensures(HostRuntime::shutdown, (again,), result_then),
        old(spawning)@ == final(stopping)@,
        call_ensures(HostRuntime::spawn, (spawning,), spawned),
        old(driving)@ == final(stopping)@,
        call_ensures(HostRuntime::begin_drive, (driving, elapsed, representable, max_tasks), driven),
        call_ensures(HostRuntime::next_timer, (&*final(stopping),), next),
        call_ensures(HostRuntime::is_closed, (&*final(stopping),), closed),
    ensures
        result is Ok <==> !old(stopping)@.driving,
        result matches Err(error) ==> error == HostRuntimeError::ConcurrentDrive && final(stopping)@ == old(stopping)@,
        result is Ok && !old(stopping)@.stopped ==> result->Ok_0@ == old(stopping)@.tasks,
        result is Ok ==> {
            &&& closed
            &&& result_then matches Ok(nothing) && nothing@.len() == 0
            &&& final(again)@ == final(stopping)@
            &&& spawned == Err::<(u64, bool), HostRuntimeError>(HostRuntimeError::Closed)
            &&& driven == Err::<Vec<u64>, HostRuntimeError>(HostRuntimeError::Closed)
            &&& next is None
        },
        result is Ok && !old(stopping)@.stopped ==> final(stopping)@.ready.len() == 0
            && final(stopping)@.tasks.len() == 0
            && final(stopping)@.timers.len() == 0,
{
}

/// A new runtime stands at time zero, with nothing to run and nothing to wait for, and is
/// open.
pub proof fn law_new_runtime_is_idle(
    runtime: HostRuntime,
    next: Option<Duration>,
    closed: bool,
    started: &mut HostRuntime,
    elapsed: Duration,
    max_tasks: usize,
    driven: Result<Vec<u64>, HostRuntimeError>,
)
    requires
        call_ensures(HostRuntime::new, (), runtime),
        call_ensures(HostRuntime::next_timer, (&runtime,), next),
        call_ensures(HostRuntime::is_closed, (&runtime,), closed),
        old(started)@ == runtime@,
        call_ensures(HostRuntime::begin_drive, (started, elapsed, true, max_tasks), driven),
    ensures
        next is None,
        !closed,
        driven matches Ok(ids) && ids@.len() == 0,
        runtime@.tasks.len() == 0 && runtime@.ready.len() == 0,
{
}

/// A timer that is not due when it is polled is waited for: a drive at its deadline or later
/// names it, an earlier one does not, and no next timer is later than it. Polled after such a
/// drive it is due.
pub proof fn law_polled_timer_is_named_at_its_deadline(
    making: &mut HostRuntime,
    deadline: Duration,
    id: u64,
    polling: &mut HostRuntime,
    ready: bool,
    next: Option<Duration>,
    driving: &mut HostRuntime,
    elapsed: Duration,
    max_tasks: usize,
    ids: Vec<u64>,
    again: &mut HostRuntime,
    ready_then: bool,
)
    requires
        old(making)@.valid(),
        deadline.wf(),
        old(making)@.next_id < u64::MAX,
        !old(making)@.stopped,
        call_ensures(HostRuntime::new_timer, (making, deadline), id),
        old(polling)@ == final(making)@,
        call_ensures(HostRuntime::poll_timer, (polling, id), ready),
        call_ensures(HostRuntime::next_timer, (&*final(polling),), next),
        old(driving)@ == final(polling)@,
        call_ensures(
            HostRuntime::begin_drive,
            (driving, elapsed, true, max_tasks),
            Ok::<Vec<u64>, HostRuntimeError>(ids),
        ),
        old(again)@ == final(driving)@,
        call_ensures(HostRuntime::poll_timer, (again, id), ready_then),
    ensures
        ready <==> nanoseconds(deadline) <= nanoseconds(old(making)@.elapsed),
        !ready ==> (next matches Some(first) && nanoseconds(first) <= nanoseconds(deadline)),
        !ready ==> (ids@.contains(id) <==> nanoseconds(deadline) <= nanoseconds(elapsed)),
        ready ==> !ids@.contains(id),
        ready_then <==> nanoseconds(deadline) <= nanoseconds(elapsed),
{
    let before = old(making)@.timers;
    let timers = final(making)@.timers;
    assert(timers.last().id == id);
    assert forall|at: int| 0 <= at < timers.len() && (#[trigger] timers[at]).id == id
        implies at == timers.len() - 1 by {
        if at < before.len() {
            assert(before[at].id == id);
        }
    }
    let last = timers.len() - 1;
    assert(timers[last].id == id);
    let polled = final(polling)@.timers;
    assert(polled.len() == timers.len());
    assert forall|at: int| 0 <= at < polled.len() && (#[trigger] polled[at]).id == id implies at == last by {
        assert(timers[at].id == id);
    }
    assert(polled[last].deadline == deadline);
    assert(polled[last].waiting == !ready);
    lemma_earliest(polled);
    lemma_due_ids(polled, elapsed, id);
    let driven = final(driving)@.timers;
    assert(driven[last].id == id && driven[last].deadline == deadline);
    assert forall|at: int| 0 <= at < driven.len() && (#[trigger] driven[at]).id == id implies at == last by {
        assert(polled[at].id == id);
    }
}

/// A timer that is reset is due by its new deadline and no other: polled afterwards it is
/// ready exactly where that deadline is no later than the time of the last drive. Whoever
/// waits is woken exactly in that case, and waits on in the other.
pub proof fn law_reset_timer_keeps_only_its_new_deadline(
    resetting: &mut HostRuntime,
    at: int,
    deadline: Duration,
    wake: bool,
    polling: &mut HostRuntime,
    ready: bool,
)
    requires
        old(resetting)@.valid(),
        0 <= at < old(resetting)@.timers.len(),
        !old(resetting)@.stopped,
        call_ensures(HostRuntime::reset_timer, (resetting, old(resetting)@.timers[at].id, deadline), wake),
        old(polling)@ == final(resetting)@,
        call_ensures(HostRuntime::poll_timer, (polling, old(resetting)@.timers[at].id), ready),
    ensures
        wake <==> old(resetting)@.timers[at].waiting && nanoseconds(deadline) <= nanoseconds(old(resetting)@.elapsed),
        ready <==> nanoseconds(deadline) <= nanoseconds(old(resetting)@.elapsed),
        final(resetting)@.timers[at].deadline == deadline,
        final(resetting)@.timers[at].waiting <==> old(resetting)@.timers[at].waiting && !wake,
        final(polling)@.timers[at].waiting <==> !ready || final(resetting)@.timers[at].waiting,
        forall|other: int|
            0 <= other < old(resetting)@.timers.len() && other != at
                ==> #[trigger] final(polling)@.timers[other] == old(resetting)@.timers[other],
{
    let timers = old(resetting)@.timers;
    let id = timers[at].id;
    assert forall|other: int| 0 <= other < timers.len() && (#[trigger] timers[other]).id == id implies other == at by {
        if other < at {
            assert(timers[other].id != timers[at].id);
        } else if at < other {
            assert(timers[at].id != timers[other].id);
        }
    }
    let changed = final(resetting)@.timers;
    assert(changed[at].id == id);
    assert forall|other: int| 0 <= other < changed.len() && (#[trigger] changed[other]).id == id
        implies other == at by {
        if other != at {
            assert(changed[other] == timers[other]);
        }
    }
}

/// A timer that is dropped is never named again, and every other timer stays.
pub proof fn law_dropped_timer_is_never_named(
    dropping: &mut HostRuntime,
    id: u64,
    driving: &mut HostRuntime,
    elapsed: Duration,
    max_tasks: usize,
    ids: Vec<u64>,
    timer: Timer,
)
    requires
        call_ensures(HostRuntime::drop_timer, (dropping, id), ()),
        old(driving)@ == final(dropping)@,
        call_ensures(
            HostRuntime::begin_drive,
            (driving, elapsed, true, max_tasks),
            Ok::<Vec<u64>, HostRuntimeError>(ids),
        ),
    ensures
        !ids@.contains(id),
        timer.id != id ==> (final(dropping)@.timers.contains(timer) <==> old(dropping)@.timers.contains(timer)),
        final(dropping)@.tasks == old(dropping)@.tasks && final(dropping)@.ready == old(dropping)@.ready,
{
    let before = old(dropping)@.timers;
    let after = final(dropping)@.timers;
    lemma_due_ids(after, elapsed, id);
    if timer.id != id && after != before {
        let at = choose|at: int| 0 <= at < before.len() && (#[trigger] before[at]).id == id
            && after == before.remove(at);
        if before.contains(timer) {
            let place = choose|place: int| 0 <= place < before.len() && before[place] == timer;
            if place < at {
                assert(after[place] == timer);
            } else {
                assert(after[place - 1] == timer);
            }
        }
        if after.contains(timer) {
            let place = choose|place: int| 0 <= place < after.len() && after[place] == timer;
            if place < at {
                assert(before[place] == timer);
            } else {
                assert(before[place + 1] == timer);
            }
        }
    }
}

/// A timer that the runtime does not know, and every timer of a runtime that is shut down, is
/// ready at once: nobody waits for what will never come.
pub proof fn law_unknown_timer_is_ready(runtime: &mut HostRuntime, id: u64, ready: bool)
    requires
        old(runtime)@.stopped || forall|at: int|
            0 <= at < old(runtime)@.timers.len() ==> (#[trigger] old(runtime)@.timers[at]).id != id,
        call_ensures(HostRuntime::poll_timer, (runtime, id), ready),
    ensures
        ready,
        final(runtime)@ == old(runtime)@,
{
}

/// Lengths of time are measured in nanoseconds: seconds and milliseconds are converted
/// without loss, and lengths are ordered by how long they last.
pub proof fn law_lengths_of_time(
    count: u64,
    seconds: Duration,
    milliseconds: Duration,
    left: Duration,
    right: Duration,
    shorter: bool,
    zero: bool,
    whole: u128,
)
    requires
        left.wf(),
        right.wf(),
        call_ensures(Duration::from_seconds, (count,), seconds),
        call_ensures(Duration::from_milliseconds, (count,), milliseconds),
        call_ensures(Duration::is_shorter, (&left, &right), shorter),
        call_ensures(Duration::is_zero, (&left,), zero),
        call_ensures(Duration::as_millis, (&left,), whole),
    ensures
        nanoseconds(seconds) == count * 1_000_000_000,
        nanoseconds(milliseconds) == count * 1_000_000,
        seconds.nanoseconds < 1_000_000_000 && milliseconds.nanoseconds < 1_000_000_000,
        shorter <==> nanoseconds(left) < nanoseconds(right),
        zero <==> left.seconds == 0 && left.nanoseconds == 0,
        whole * 1_000_000 <= nanoseconds(left) < (whole + 1) * 1_000_000,
{
}

} // verus!
