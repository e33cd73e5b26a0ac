//! Polled cooperative scheduler of one-shot and recurring callbacks.
//!
//! Tasks wait in a vector ordered by the time of their next run, earliest
//! first; among tasks with the same time the one that was inserted first
//! runs first. The caller passes the current time, in milliseconds, to every
//! operation that needs it.

use crate::system::events::{Event, EventQueue};
use vstd::prelude::*;

verus! {

/// Largest time, delay or interval that the scheduler accepts, in
/// milliseconds. The sum of two such values still fits in 64 bits.
pub const MAX_TIME_MS: u64 = 0x7fff_ffff_ffff_ffff;

/// A callback waiting for its next run.
pub struct ScheduledTask<F> {
    pub id: u32,
    pub next_run: u64,
    pub interval: Option<u64>,
    pub callback: F,
}

/// Whether `tasks` is ordered by `next_run`, earliest first.
pub open spec fn ordered_by_next_run<F>(tasks: Seq<ScheduledTask<F>>) -> bool {
    forall|i: int, j: int| 0 <= i <= j < tasks.len() ==> tasks[i].next_run <= tasks[j].next_run
}

/// Length of the longest prefix of `tasks` whose tasks run no later than
/// `time`. In a sequence ordered by `next_run` these are all such tasks.
pub open spec fn due_count<F>(tasks: Seq<ScheduledTask<F>>, time: u64) -> nat
    decreases tasks.len(),
{
    if tasks.len() == 0 || tasks[0].next_run > time {
        0
    } else {
        1 + due_count(tasks.drop_first(), time)
    }
}

/// `tasks` with `task` inserted behind every task that runs no later than it.
pub open spec fn tasks_after_insert<F>(
    tasks: Seq<ScheduledTask<F>>,
    task: ScheduledTask<F>,
) -> Seq<ScheduledTask<F>> {
    tasks.insert(due_count(tasks, task.next_run) as int, task)
}

/// `tasks` after inserting each of `items` in turn.
pub open spec fn tasks_after_insert_all<F>(
    tasks: Seq<ScheduledTask<F>>,
    items: Seq<ScheduledTask<F>>,
) -> Seq<ScheduledTask<F>>
    decreases items.len(),
{
    if items.len() == 0 {
        tasks
    } else {
        tasks_after_insert_all(tasks_after_insert(tasks, items[0]), items.drop_first())
    }
}

/// `tasks` without those whose id is `id`, order kept.
pub open spec fn tasks_without<F>(tasks: Seq<ScheduledTask<F>>, id: u32) -> Seq<ScheduledTask<F>>
    decreases tasks.len(),
{
    if tasks.len() == 0 {
        tasks
    } else if tasks.last().id == id {
        tasks_without(tasks.drop_last(), id)
    } else {
        tasks_without(tasks.drop_last(), id).push(tasks.last())
    }
}

/// Whether some task of `tasks` has the id `id`.
pub open spec fn has_task<F>(tasks: Seq<ScheduledTask<F>>, id: u32) -> bool {
    exists|i: int| 0 <= i < tasks.len() && tasks[i].id == id
}

/// A recurring task as it waits again after a run at `now`.
pub open spec fn rearmed_task<F>(task: ScheduledTask<F>, now: u64) -> ScheduledTask<F>
    recommends
        task.interval is Some,
{
    ScheduledTask {
        id: task.id,
        next_run: (now + task.interval->0) as u64,
        interval: task.interval,
        callback: task.callback,
    }
}

/// The recurring tasks among `fired`, each waiting again after a run at
/// `now`, in the order in which they ran.
pub open spec fn rearmed_tasks<F>(fired: Seq<ScheduledTask<F>>, now: u64) -> Seq<ScheduledTask<F>>
    decreases fired.len(),
{
    if fired.len() == 0 {
        fired
    } else if fired.last().interval is Some {
        rearmed_tasks(fired.drop_last(), now).push(rearmed_task(fired.last(), now))
    } else {
        rearmed_tasks(fired.drop_last(), now)
    }
}

/// The tasks that an update at `now` runs, in the order in which it runs them.
pub open spec fn fired_tasks<F>(tasks: Seq<ScheduledTask<F>>, now: u64) -> Seq<ScheduledTask<F>> {
    tasks.subrange(0, due_count(tasks, now) as int)
}

/// The tasks that wait after an update at `now`.
pub open spec fn tasks_after_update<F>(tasks: Seq<ScheduledTask<F>>, now: u64) -> Seq<
    ScheduledTask<F>,
> {
    tasks_after_insert_all(
        tasks.subrange(due_count(tasks, now) as int, tasks.len() as int),
        rearmed_tasks(fired_tasks(tasks, now), now),
    )
}

/// One `Timer` event for each of `fired`, in order.
pub open spec fn timer_events<F>(fired: Seq<ScheduledTask<F>>) -> Seq<Event> {
    Seq::new(fired.len(), |i: int| Event::Timer(fired[i].id))
}

/// The scheduler: the waiting tasks and the id that the next task will get.
pub struct Scheduler<F> {
    tasks: Vec<ScheduledTask<F>>,
    next_id: u32,
}

impl<F: Fn()> Scheduler<F> {
    /// The waiting tasks, in the order in which they would run.
    pub closed spec fn tasks(&self) -> Seq<ScheduledTask<F>> {
        self.tasks@
    }

    /// The id that the next scheduled task gets.
    pub closed spec fn spec_next_id(&self) -> u32 {
        self.next_id
    }

    /// What every operation keeps: the tasks are ordered by their next run,
    /// every id was handed out before, every interval is within
    /// `MAX_TIME_MS`, and every callback may be called.
    pub open spec fn wf(&self) -> bool {
        tasks_wf(self.tasks(), self.spec_next_id())
    }
}

/// Well-formedness of a task sequence under the id counter `next_id`.
pub open spec fn tasks_wf<F: Fn()>(tasks: Seq<ScheduledTask<F>>, next_id: u32) -> bool {
    &&& ordered_by_next_run(tasks)
    &&& forall|i: int| 0 <= i < tasks.len() ==> (#[trigger] tasks[i]).id < next_id
    &&& forall|i: int|
        0 <= i < tasks.len() && (#[trigger] tasks[i]).interval is Some ==> tasks[i].interval->0
            <= MAX_TIME_MS
    &&& forall|i: int| 0 <= i < tasks.len() ==> call_requires((#[trigger] tasks[i]).callback, ())
}


/// The prefix that `due_count` measures holds only tasks that run no later
/// than `time`, and the task behind it, if any, runs later.
pub proof fn lemma_due_count_bounds<F>(tasks: Seq<ScheduledTask<F>>, time: u64)
    ensures
        due_count(tasks, time) <= tasks.len(),
        forall|k: int| 0 <= k < due_count(tasks, time) ==> (#[trigger] tasks[k]).next_run <= time,
        due_count(tasks, time) < tasks.len() ==> tasks[due_count(tasks, time) as int].next_run
            > time,
    decreases tasks.len(),
{
    if tasks.len() == 0 || tasks[0].next_run > time {
    } else {
        let rest = tasks.drop_first();
        lemma_due_count_bounds(rest, time);
        assert forall|k: int| 0 <= k < due_count(tasks, time) implies (#[trigger] tasks[k]).next_run
            <= time by {
            if k > 0 {
                assert(tasks[k] == rest[k - 1]);
            }
        }
        if due_count(tasks, time) < tasks.len() {
            assert(tasks[due_count(tasks, time) as int] == rest[due_count(rest, time) as int]);
        }
    }
}

/// A position that splits `tasks` into tasks that run no later than `time`
/// and a first task that runs later is the one that `due_count` measures.
pub proof fn lemma_due_count_is<F>(tasks: Seq<ScheduledTask<F>>, time: u64, n: int)
    requires
        0 <= n <= tasks.len(),
        forall|k: int| 0 <= k < n ==> (#[trigger] tasks[k]).next_run <= time,
        n < tasks.len() ==> tasks[n].next_run > time,
    ensures
        due_count(tasks, time) == n,
    decreases n,
{
    if n > 0 {
        let rest = tasks.drop_first();
        assert(tasks[0].next_run <= time);
        assert forall|k: int| 0 <= k < n - 1 implies (#[trigger] rest[k]).next_run <= time by {
            assert(rest[k] == tasks[k + 1]);
        }
        lemma_due_count_is(rest, time, n - 1);
    }
}

/// Inserting a well-formed task keeps the sequence well-formed.
pub proof fn lemma_insert_keeps_wf<F: Fn()>(
    tasks: Seq<ScheduledTask<F>>,
    task: ScheduledTask<F>,
    next_id: u32,
)
    requires
        tasks_wf(tasks, next_id),
        task.id < next_id,
        task.interval is Some ==> task.interval->0 <= MAX_TIME_MS,
        call_requires(task.callback, ()),
    ensures
        tasks_wf(tasks_after_insert(tasks, task), next_id),
{
    lemma_due_count_bounds(tasks, task.next_run);
    let n = due_count(tasks, task.next_run) as int;
    let after = tasks_after_insert(tasks, task);
    assert forall|i: int, j: int| 0 <= i <= j < after.len() implies after[i].next_run
        <= after[j].next_run by {
        if n < tasks.len() {
            assert(tasks[n].next_run > task.next_run);
        }
        if i < n {
            assert(after[i] == tasks[i]);
        }
        if j > n {
            assert(after[j] == tasks[j - 1]);
        }
        if i > n {
            assert(after[i] == tasks[i - 1]);
        }
        if j < n {
            assert(after[j] == tasks[j]);
        }
    }
    assert forall|i: int| 0 <= i < after.len() implies (#[trigger] after[i]).id < next_id
        && (after[i].interval is Some ==> after[i].interval->0 <= MAX_TIME_MS) && call_requires(
        after[i].callback,
        (),
    ) by {
        if i < n {
            assert(after[i] == tasks[i]);
        } else if i > n {
            assert(after[i] == tasks[i - 1]);
        }
    }
}

impl<F: Fn()> Scheduler<F> {
    /// A scheduler with no task; the first task gets the id 0.
    pub fn new() -> (s: Self)
        ensures
            s.wf(),
            s.tasks() == Seq::<ScheduledTask<F>>::empty(),
            s.spec_next_id() == 0,
    {
        Scheduler { tasks: Vec::new(), next_id: 0 }
    }

    /// The id that the next scheduled task gets.
    pub fn next_id(&self) -> (id: u32)
        ensures
            id == self.spec_next_id(),
    {
        self.next_id
    }

    /// Number of waiting tasks.
    pub fn task_count(&self) -> (n: usize)
        ensures
            n == self.tasks().len(),
    {
        self.tasks.len()
    }

    /// The time of the earliest waiting task's next run, if a task waits.
    pub fn next_deadline(&self) -> (t: Option<u64>)
        ensures
            self.tasks().len() == 0 ==> t is None,
            self.tasks().len() > 0 ==> t == Some(self.tasks()[0].next_run),
    {
        if self.tasks.len() == 0 {
            None
        } else {
            Some(self.tasks[0].next_run)
        }
    }

    /// Puts `task` behind every waiting task that runs no later than it.
    fn insert(&mut self, task: ScheduledTask<F>)
        requires
            old(self).wf(),
            task.id < old(self).spec_next_id(),
            task.interval is Some ==> task.interval->0 <= MAX_TIME_MS,
            call_requires(task.callback, ()),
        ensures
            final(self).wf(),
            final(self).tasks() == tasks_after_insert(old(self).tasks(), task),
            final(self).spec_next_id() == old(self).spec_next_id(),
    {
        let mut position: usize = 0;
        while position < self.tasks.len() && self.tasks[position].next_run <= task.next_run
            invariant
                position <= self.tasks.len(),
                forall|k: int|
                    0 <= k < position ==> (#[trigger] self.tasks@[k]).next_run <= task.next_run,
            decreases self.tasks.len() - position,
        {
            position += 1;
        }
        proof {
            lemma_due_count_is(self.tasks@, task.next_run, position as int);
            lemma_insert_keeps_wf(self.tasks@, task, self.next_id);
        }
        self.tasks.insert(position, task);
    }

    /// Schedules `callback` to run once, `delay` milliseconds after `now`, and
    /// returns the id of the new task: the ids count up from 0 in the order of
    /// scheduling.
    pub fn schedule_once(&mut self, now: u64, delay: u64, callback: F) -> (id: u32)
        requires
            old(self).wf(),
            old(self).spec_next_id() < u32::MAX,
            now <= MAX_TIME_MS,
            delay <= MAX_TIME_MS,
            call_requires(callback, ()),
        ensures
            final(self).wf(),
            id == old(self).spec_next_id(),
            final(self).spec_next_id() == id + 1,
            final(self).tasks() == tasks_after_insert(
                old(self).tasks(),
                (ScheduledTask { id, next_run: (now + delay) as u64, interval: None, callback }),
            ),
    {
        let id = self.next_id;
        self.next_id = self.next_id + 1;
        self.insert(ScheduledTask { id, next_run: now + delay, interval: None, callback });
        id
    }

    /// Schedules `callback` to run `delay` milliseconds after `now` and then
    /// again `interval` milliseconds after each run, and returns the id of the
    /// new task, which it keeps over all its runs.
    pub fn schedule_recurring(&mut self, now: u64, delay: u64, interval: u64, callback: F) -> (id:
        u32)
        requires
            old(self).wf(),
            old(self).spec_next_id() < u32::MAX,
            now <= MAX_TIME_MS,
            delay <= MAX_TIME_MS,
            interval <= MAX_TIME_MS,
            call_requires(callback, ()),
        ensures
            final(self).wf(),
            id == old(self).spec_next_id(),
            final(self).spec_next_id() == id + 1,
            final(self).tasks() == tasks_after_insert(
                old(self).tasks(),
                (ScheduledTask {
                    id,
                    next_run: (now + delay) as u64,
                    interval: Some(interval),
                    callback,
                }),
            ),
    {
        let id = self.next_id;
        self.next_id = self.next_id + 1;
        self.insert(
            ScheduledTask { id, next_run: now + delay, interval: Some(interval), callback },
        );
        id
    }
}


/// Removing the tasks of one id keeps a well-formed sequence well-formed.
pub proof fn lemma_tasks_without_wf<F: Fn()>(tasks: Seq<ScheduledTask<F>>, id: u32, next_id: u32)
    requires
        tasks_wf(tasks, next_id),
    ensures
        tasks_wf(tasks_without(tasks, id), next_id),
        tasks.len() > 0 ==> forall|i: int|
            0 <= i < tasks_without(tasks, id).len() ==> (#[trigger] tasks_without(
                tasks,
                id,
            )[i]).next_run <= tasks.last().next_run,
    decreases tasks.len(),
{
    if tasks.len() > 0 {
        let init = tasks.drop_last();
        let kept_init = tasks_without(init, id);
        assert(tasks_wf(init, next_id));
        lemma_tasks_without_wf(init, id, next_id);
        if init.len() > 0 {
            assert(init.last() == tasks[tasks.len() - 2]);
            assert(init.last().next_run <= tasks.last().next_run);
        }
    }
}

/// Removing the tasks of one id leaves no task of that id, shortens the
/// sequence exactly when it held one, and otherwise changes nothing.
pub proof fn lemma_tasks_without_id<F>(tasks: Seq<ScheduledTask<F>>, id: u32)
    ensures
        !has_task(tasks_without(tasks, id), id),
        tasks_without(tasks, id).len() <= tasks.len(),
        has_task(tasks, id) <==> tasks_without(tasks, id).len() < tasks.len(),
        !has_task(tasks, id) ==> tasks_without(tasks, id) == tasks,
    decreases tasks.len(),
{
    let kept = tasks_without(tasks, id);
    if tasks.len() > 0 {
        let init = tasks.drop_last();
        let kept_init = tasks_without(init, id);
        lemma_tasks_without_id(init, id);
        if has_task(tasks, id) {
            let j = choose|j: int| 0 <= j < tasks.len() && tasks[j].id == id;
            if j < init.len() {
                assert(init[j].id == id);
            }
        }
        if has_task(init, id) {
            let j = choose|j: int| 0 <= j < init.len() && init[j].id == id;
            assert(tasks[j].id == id);
        }
        if tasks.last().id == id {
            assert(tasks[tasks.len() - 1].id == id);
        }
        if !has_task(tasks, id) {
            assert(kept =~= tasks);
        }
        if has_task(kept, id) {
            let i = choose|i: int| 0 <= i < kept.len() && kept[i].id == id;
            if i < kept_init.len() {
                assert(kept_init[i].id == id);
            }
        }
    }
}

impl<F: Fn()> Scheduler<F> {
    /// Removes the task with the id `id`, if one waits, and says whether it
    /// removed one. The other tasks keep their order; with no such task
    /// nothing changes.
    pub fn cancel_task(&mut self, id: u32) -> (removed: bool)
        requires
            old(self).wf(),
        ensures
            final(self).wf(),
            final(self).tasks() == tasks_without(old(self).tasks(), id),
            final(self).spec_next_id() == old(self).spec_next_id(),
            removed == has_task(old(self).tasks(), id),
            !has_task(final(self).tasks(), id),
            !removed ==> final(self).tasks() == old(self).tasks(),
    {
        let ghost before = self.tasks@;
        let old_len = self.tasks.len();
        let mut kept: Vec<ScheduledTask<F>> = Vec::new();
        let mut taken: usize = 0;
        while self.tasks.len() > 0
            invariant
                taken + self.tasks.len() == before.len(),
                self.tasks@ == before.subrange(taken as int, before.len() as int),
                kept@ == tasks_without(before.subrange(0, taken as int), id),
                self.next_id == old(self).next_id,
                before.len() == old_len,
            decreases self.tasks.len(),
        {
            let task = self.tasks.remove(0);
            proof {
                assert(task == before[taken as int]);
                let prefix = before.subrange(0, taken + 1);
                assert(prefix.drop_last() == before.subrange(0, taken as int));
                assert(prefix.last() == task);
                assert(self.tasks@ == before.subrange(taken + 1, before.len() as int));
            }
            if task.id != id {
                kept.push(task);
            }
            taken += 1;
        }
        proof {
            assert(before.subrange(0, taken as int) == before);
            lemma_tasks_without_wf(before, id, self.next_id);
            lemma_tasks_without_id(before, id);
        }
        self.tasks = kept;
        old_len != self.tasks.len()
    }
}


/// Inserting well-formed tasks one after another keeps the sequence
/// well-formed.
pub proof fn lemma_insert_all_keeps_wf<F: Fn()>(
    tasks: Seq<ScheduledTask<F>>,
    items: Seq<ScheduledTask<F>>,
    next_id: u32,
)
    requires
        tasks_wf(tasks, next_id),
        forall|i: int| 0 <= i < items.len() ==> (#[trigger] items[i]).id < next_id,
        forall|i: int|
            0 <= i < items.len() && (#[trigger] items[i]).interval is Some
                ==> items[i].interval->0 <= MAX_TIME_MS,
        forall|i: int| 0 <= i < items.len() ==> call_requires((#[trigger] items[i]).callback, ()),
    ensures
        tasks_wf(tasks_after_insert_all(tasks, items), next_id),
    decreases items.len(),
{
    if items.len() > 0 {
        lemma_insert_keeps_wf(tasks, items[0], next_id);
        let rest = items.drop_first();
        assert forall|i: int| 0 <= i < rest.len() implies (#[trigger] rest[i]).id < next_id && (
        rest[i].interval is Some ==> rest[i].interval->0 <= MAX_TIME_MS) && call_requires(
            rest[i].callback,
            (),
        ) by {
            assert(rest[i] == items[i + 1]);
        }
        lemma_insert_all_keeps_wf(tasks_after_insert(tasks, items[0]), rest, next_id);
    }
}

/// The recurring tasks that wait again after a run at `now` keep their ids,
/// intervals and callbacks, and each waits for `now` plus its interval.
pub proof fn lemma_rearmed_tasks_wf<F: Fn()>(
    fired: Seq<ScheduledTask<F>>,
    now: u64,
    next_id: u32,
)
    requires
        tasks_wf(fired, next_id),
        now <= MAX_TIME_MS,
    ensures
        rearmed_tasks(fired, now).len() <= fired.len(),
        forall|i: int|
            0 <= i < rearmed_tasks(fired, now).len() ==> {
                let task = #[trigger] rearmed_tasks(fired, now)[i];
                &&& task.id < next_id
                &&& task.interval is Some
                &&& task.interval->0 <= MAX_TIME_MS
                &&& task.next_run == now + task.interval->0
                &&& call_requires(task.callback, ())
            },
    decreases fired.len(),
{
    if fired.len() > 0 {
        let init = fired.drop_last();
        assert(tasks_wf(init, next_id));
        lemma_rearmed_tasks_wf(init, now, next_id);
        assert(fired.last() == fired[fired.len() - 1]);
    }
}

impl<F: Fn()> Scheduler<F> {
    /// Runs every task that is due at `now`, earliest first: calls its
    /// callback and appends `Timer` with its id to `queue`. When all of them
    /// have run, each recurring one among them waits again, for `now` plus its
    /// interval; a one-shot task is gone. So a task runs at most once in one
    /// update, whatever its interval.
    pub fn update(&mut self, now: u64, queue: &mut EventQueue)
        requires
            old(self).wf(),
            now <= MAX_TIME_MS,
        ensures
            final(self).wf(),
            final(self).spec_next_id() == old(self).spec_next_id(),
            final(self).tasks() == tasks_after_update(old(self).tasks(), now),
            final(queue)@ == old(queue)@ + timer_events(fired_tasks(old(self).tasks(), now)),
            forall|i: int|
                0 <= i < fired_tasks(old(self).tasks(), now).len() ==> call_ensures(
                    (#[trigger] fired_tasks(old(self).tasks(), now)[i]).callback,
                    (),
                    (),
                ),
    {
        let ghost before = self.tasks@;
        let ghost queued = queue@;
        let ghost due = due_count(before, now) as int;
        let ghost total = self.tasks.len();
        proof {
            lemma_due_count_bounds(before, now);
        }
        let mut again: Vec<ScheduledTask<F>> = Vec::new();
        let mut ran: usize = 0;
        while self.tasks.len() > 0 && self.tasks[0].next_run <= now
            invariant
                before.len() == total,
                tasks_wf(before, self.next_id),
                self.next_id == old(self).next_id,
                now <= MAX_TIME_MS,
                due == due_count(before, now),
                ran <= due <= before.len(),
                forall|k: int| 0 <= k < due ==> (#[trigger] before[k]).next_run <= now,
                due < before.len() ==> before[due].next_run > now,
                self.tasks@ == before.subrange(ran as int, before.len() as int),
                again@ == rearmed_tasks(before.subrange(0, ran as int), now),
                queue@ == queued + timer_events(before.subrange(0, ran as int)),
                forall|i: int|
                    0 <= i < ran ==> call_ensures((#[trigger] before[i]).callback, (), ()),
            decreases self.tasks.len(),
        {
            proof {
                assert(self.tasks@[0] == before[ran as int]);
                if ran as int == due {
                    assert(before[due].next_run > now);
                }
            }
            let task = self.tasks.remove(0);
            proof {
                assert(task == before[ran as int]);
                let prefix = before.subrange(0, ran + 1);
                assert(prefix.drop_last() == before.subrange(0, ran as int));
                assert(prefix.last() == task);
                assert(self.tasks@ == before.subrange(ran + 1, before.len() as int));
                assert(timer_events(prefix) == timer_events(before.subrange(0, ran as int)).push(
                    Event::Timer(task.id),
                ));
            }
            (task.callback)();
            queue.push(Event::Timer(task.id));
            match task.interval {
                Some(interval) => {
                    again.push(
                        ScheduledTask {
                            id: task.id,
                            next_run: now + interval,
                            interval: Some(interval),
                            callback: task.callback,
                        },
                    );
                },
                None => {},
            }
            ran += 1;
        }
        proof {
            if (ran as int) < due {
                assert(self.tasks@[0] == before[ran as int]);
            }
            assert(ran == due);
            assert(before.subrange(0, ran as int) == fired_tasks(before, now));
            lemma_rearmed_tasks_wf(fired_tasks(before, now), now, self.next_id);
            assert(tasks_wf(self.tasks@, self.next_id));
        }
        let ghost rest = self.tasks@;
        let ghost pending = again@;
        while again.len() > 0
            invariant
                self.next_id == old(self).next_id,
                tasks_wf(self.tasks@, self.next_id),
                forall|i: int| 0 <= i < again.len() ==> (#[trigger] again@[i]).id < self.next_id,
                forall|i: int|
                    0 <= i < again.len() && (#[trigger] again@[i]).interval is Some
                        ==> again@[i].interval->0 <= MAX_TIME_MS,
                forall|i: int|
                    0 <= i < again.len() ==> call_requires((#[trigger] again@[i]).callback, ()),
                tasks_after_insert_all(self.tasks@, again@) == tasks_after_insert_all(
                    rest,
                    pending,
                ),
            decreases again.len(),
        {
            let ghost items = again@;
            let task = again.remove(0);
            proof {
                assert(task == items[0]);
                assert(again@ == items.drop_first());
                assert forall|i: int| 0 <= i < again.len() implies (#[trigger] again@[i]).id
                    < self.next_id && (again@[i].interval is Some ==> again@[i].interval->0
                    <= MAX_TIME_MS) && call_requires(again@[i].callback, ()) by {
                    assert(again@[i] == items[i + 1]);
                }
            }
            self.insert(task);
        }
    }
}


/// An update runs exactly the tasks that are due, in the order of their
/// `next_run`, earliest first: in a sequence ordered by `next_run` the tasks
/// that run are those whose time has come, none of the others, and their
/// times never decrease along the run.
pub proof fn lemma_update_runs_due_tasks_in_order<F>(tasks: Seq<ScheduledTask<F>>, now: u64)
    requires
        ordered_by_next_run(tasks),
    ensures
        fired_tasks(tasks, now).len() == due_count(tasks, now) <= tasks.len(),
        forall|i: int|
            0 <= i < tasks.len() ==> ((#[trigger] tasks[i]).next_run <= now <==> i < due_count(
                tasks,
                now,
            )),
        forall|i: int, j: int|
            0 <= i <= j < fired_tasks(tasks, now).len() ==> fired_tasks(tasks, now)[i].next_run
                <= fired_tasks(tasks, now)[j].next_run,
        forall|i: int|
            0 <= i < fired_tasks(tasks, now).len() ==> #[trigger] timer_events(
                fired_tasks(tasks, now),
            )[i] == Event::Timer(tasks[i].id),
{
    lemma_due_count_bounds(tasks, now);
    let due = due_count(tasks, now) as int;
    assert forall|i: int| 0 <= i < tasks.len() implies ((#[trigger] tasks[i]).next_run <= now
        <==> i < due) by {
        if i >= due {
            assert(tasks[due].next_run <= tasks[i].next_run);
        }
    }
}

/// A task that runs no earlier than any waiting task goes behind them all.
/// So tasks scheduled at one time with delays that never decrease wait, and
/// run, in the order in which they were scheduled.
pub proof fn lemma_latest_task_goes_last<F>(tasks: Seq<ScheduledTask<F>>, task: ScheduledTask<F>)
    requires
        forall|i: int| 0 <= i < tasks.len() ==> (#[trigger] tasks[i]).next_run <= task.next_run,
    ensures
        tasks_after_insert(tasks, task) == tasks.push(task),
{
    lemma_due_count_is(tasks, task.next_run, tasks.len() as int);
    assert(tasks.insert(tasks.len() as int, task) =~= tasks.push(task));
}

/// No task of `tasks` with all of `items` inserted has the id `id`, where
/// none of `tasks` and none of `items` has it.
proof fn lemma_insert_all_ids<F>(
    tasks: Seq<ScheduledTask<F>>,
    items: Seq<ScheduledTask<F>>,
    id: u32,
)
    requires
        !has_task(tasks, id),
        !has_task(items, id),
    ensures
        !has_task(tasks_after_insert_all(tasks, items), id),
    decreases items.len(),
{
    if items.len() > 0 {
        lemma_due_count_bounds(tasks, items[0].next_run);
        let first = tasks_after_insert(tasks, items[0]);
        let n = due_count(tasks, items[0].next_run) as int;
        assert(items[0].id != id);
        if has_task(first, id) {
            let i = choose|i: int| 0 <= i < first.len() && first[i].id == id;
            if i < n {
                assert(tasks[i].id == id);
            } else if i > n {
                assert(tasks[i - 1].id == id);
            }
        }
        let rest = items.drop_first();
        if has_task(rest, id) {
            let i = choose|i: int| 0 <= i < rest.len() && rest[i].id == id;
            assert(items[i + 1].id == id);
        }
        lemma_insert_all_ids(first, rest, id);
    }
}

/// No task that waits again after a run has an id that none of the tasks
/// that ran has.
proof fn lemma_rearmed_ids<F>(fired: Seq<ScheduledTask<F>>, now: u64, id: u32)
    requires
        !has_task(fired, id),
    ensures
        !has_task(rearmed_tasks(fired, now), id),
    decreases fired.len(),
{
    if fired.len() > 0 {
        let init = fired.drop_last();
        if has_task(init, id) {
            let i = choose|i: int| 0 <= i < init.len() && init[i].id == id;
            assert(fired[i].id == id);
        }
        lemma_rearmed_ids(init, now, id);
        assert(fired[fired.len() - 1].id != id);
        let again = rearmed_tasks(fired, now);
        if has_task(again, id) {
            let i = choose|i: int| 0 <= i < again.len() && again[i].id == id;
            if i < rearmed_tasks(init, now).len() {
                assert(rearmed_tasks(init, now)[i].id == id);
            }
        }
    }
}

/// A task that does not wait never runs again: while no waiting task has
/// the id `id`, an update appends no `Timer` with that id and leaves no task
/// with it, and scheduling a task under another id brings none. After a
/// cancellation no task has the cancelled id, and every later task gets a
/// larger one.
pub proof fn lemma_absent_task_stays_silent<F>(
    tasks: Seq<ScheduledTask<F>>,
    id: u32,
    now: u64,
    other: ScheduledTask<F>,
)
    requires
        !has_task(tasks, id),
        other.id != id,
    ensures
        forall|i: int|
            0 <= i < fired_tasks(tasks, now).len() ==> #[trigger] timer_events(
                fired_tasks(tasks, now),
            )[i] != Event::Timer(id),
        !has_task(tasks_after_update(tasks, now), id),
        !has_task(tasks_after_insert(tasks, other), id),
{
    lemma_due_count_bounds(tasks, now);
    let due = due_count(tasks, now) as int;
    let fired = fired_tasks(tasks, now);
    let rest = tasks.subrange(due, tasks.len() as int);
    assert forall|i: int| 0 <= i < fired.len() implies #[trigger] timer_events(fired)[i]
        != Event::Timer(id) by {
        assert(fired[i] == tasks[i]);
    }
    if has_task(fired, id) {
        let i = choose|i: int| 0 <= i < fired.len() && fired[i].id == id;
        assert(tasks[i].id == id);
    }
    if has_task(rest, id) {
        let i = choose|i: int| 0 <= i < rest.len() && rest[i].id == id;
        assert(tasks[due + i].id == id);
    }
    lemma_rearmed_ids(fired, now, id);
    lemma_insert_all_ids(rest, rearmed_tasks(fired, now), id);
    let single = seq![other];
    if has_task(single, id) {
        let i = choose|i: int| 0 <= i < single.len() && single[i].id == id;
        assert(single[i] == other);
    }
    lemma_insert_all_ids(tasks, single, id);
    assert(seq![other].drop_first() == Seq::<ScheduledTask<F>>::empty());
    assert(tasks_after_insert_all(tasks, seq![other]) == tasks_after_insert(tasks, other)) by {
        assert(tasks_after_insert_all(tasks_after_insert(tasks, other), seq![other].drop_first())
            == tasks_after_insert(tasks, other));
    }
}


/// Number of runs of one recurring task over updates at `times`, in that
/// order: an update runs the task when its time has come, and the task then
/// waits for the time of that update plus its interval.
pub open spec fn runs_over<F>(task: ScheduledTask<F>, times: Seq<u64>) -> nat
    decreases times.len(),
{
    if times.len() == 0 {
        0
    } else if task.next_run <= times[0] {
        1 + runs_over(rearmed_task(task, times[0]), times.drop_first())
    } else {
        runs_over(task, times.drop_first())
    }
}

/// Most runs that a task waiting for `next_run` can have up to the time
/// `end`, when `interval` milliseconds lie between two of them.
pub open spec fn runs_bound(next_run: int, interval: int, end: int) -> int {
    if next_run > end {
        0
    } else {
        (end - next_run) / interval + 1
    }
}

proof fn lemma_runs_bound_step(next_run: int, later: int, interval: int, end: int)
    requires
        interval > 0,
        next_run <= end,
        later >= next_run + interval,
    ensures
        runs_bound(later, interval, end) + 1 <= runs_bound(next_run, interval, end),
        runs_bound(next_run, interval, end) >= 1,
{
    assert((end - next_run) / interval >= 0) by (nonlinear_arith)
        requires
            end - next_run >= 0,
            interval > 0,
    ;
    if later <= end {
        assert((end - later) / interval + 1 <= (end - next_run) / interval) by (nonlinear_arith)
            requires
                interval > 0,
                later >= next_run + interval,
                later <= end,
        ;
    }
}

proof fn lemma_runs_within_bound<F>(task: ScheduledTask<F>, times: Seq<u64>, end: int)
    requires
        task.interval is Some,
        0 < task.interval->0 <= MAX_TIME_MS,
        forall|i: int| 0 <= i < times.len() ==> times[i] <= end && times[i] <= MAX_TIME_MS,
    ensures
        runs_over(task, times) <= runs_bound(task.next_run as int, task.interval->0 as int, end),
    decreases times.len(),
{
    let interval = task.interval->0 as int;
    if times.len() == 0 {
        if task.next_run <= end {
            assert((end - task.next_run) / interval >= 0) by (nonlinear_arith)
                requires
                    end - task.next_run >= 0,
                    interval > 0,
            ;
        }
    } else {
        let rest = times.drop_first();
        assert forall|i: int| 0 <= i < rest.len() implies rest[i] <= end && rest[i]
            <= MAX_TIME_MS by {
            assert(rest[i] == times[i + 1]);
        }
        if task.next_run <= times[0] {
            let again = rearmed_task(task, times[0]);
            assert(again.next_run == times[0] + interval);
            lemma_runs_within_bound(again, rest, end);
            lemma_runs_bound_step(task.next_run as int, again.next_run as int, interval, end);
        } else {
            lemma_runs_within_bound(task, rest, end);
        }
    }
}

/// A recurring task never runs too often: over updates that all fall within
/// `span` milliseconds from `start`, made in any number and at any times, a
/// task with the interval `interval` that waited at `start` runs at most
/// `span / interval + 1` times.
pub proof fn lemma_recurring_runs_bounded<F>(
    task: ScheduledTask<F>,
    times: Seq<u64>,
    start: u64,
    span: u64,
)
    requires
        task.interval is Some,
        0 < task.interval->0 <= MAX_TIME_MS,
        start <= task.next_run,
        forall|i: int|
            0 <= i < times.len() ==> start <= times[i] <= start + span && times[i] <= MAX_TIME_MS,
    ensures
        runs_over(task, times) <= span / task.interval->0 + 1,
{
    let interval = task.interval->0 as int;
    let end = start + span;
    lemma_runs_within_bound(task, times, end);
    if task.next_run <= end {
        assert((end - task.next_run) / interval <= span as int / interval) by (nonlinear_arith)
            requires
                interval > 0,
                0 <= end - task.next_run <= span,
        ;
    } else {
        assert(span as int / interval >= 0) by (nonlinear_arith)
            requires
                span >= 0,
                interval > 0,
        ;
    }
}


/// The times `from`, `from + 1`, and so on, `count` of them: an update in
/// every millisecond.
pub open spec fn every_millisecond(from: u64, count: nat) -> Seq<u64> {
    Seq::new(count, |i: int| (from + i) as u64)
}

/// With an update in every millisecond a recurring task runs as often as it
/// can: its count over the `span` milliseconds from `start` is
/// `runs_bound`. So a task with the interval `interval` whose first run
/// lies within one interval from `start` runs `span / interval` or
/// `span / interval + 1` times.
pub proof fn lemma_recurring_runs_every_millisecond<F>(
    task: ScheduledTask<F>,
    start: u64,
    span: u64,
)
    requires
        task.interval is Some,
        0 < task.interval->0 <= MAX_TIME_MS,
        start <= task.next_run,
        start + span <= MAX_TIME_MS,
    ensures
        runs_over(task, every_millisecond(start, (span + 1) as nat)) == runs_bound(
            task.next_run as int,
            task.interval->0 as int,
            start + span,
        ),
        task.next_run <= start + task.interval->0 ==> span / task.interval->0 <= runs_over(
            task,
            every_millisecond(start, (span + 1) as nat),
        ) <= span / task.interval->0 + 1,
    decreases span,
{
    let interval = task.interval->0 as int;
    let end = start + span;
    let times = every_millisecond(start, (span + 1) as nat);
    let rest = times.drop_first();
    assert(times[0] == start);
    if span == 0 {
        assert(rest.len() == 0);
        if task.next_run <= start {
            assert(runs_over(rearmed_task(task, start), rest) == 0);
            assert((end - task.next_run) / interval == 0) by (nonlinear_arith)
                requires
                    end - task.next_run == 0,
                    interval > 0,
            ;
        } else {
            assert(runs_over(task, rest) == 0);
        }
    } else {
        assert(rest =~= every_millisecond((start + 1) as u64, span as nat));
        if task.next_run <= start {
            let again = rearmed_task(task, start);
            assert(again.next_run == start + interval);
            lemma_recurring_runs_every_millisecond(again, (start + 1) as u64, (span - 1) as u64);
            if start + interval <= end {
                assert((end - start) / interval == (end - (start + interval)) / interval + 1)
                    by (nonlinear_arith)
                    requires
                        interval > 0,
                        start + interval <= end,
                ;
            } else {
                assert((end - start) / interval == 0) by (nonlinear_arith)
                    requires
                        interval > 0,
                        0 <= end - start < interval,
                ;
            }
        } else {
            lemma_recurring_runs_every_millisecond(task, (start + 1) as u64, (span - 1) as u64);
        }
    }
    if task.next_run <= start + interval {
        if task.next_run <= end {
            assert(span as int / interval <= (end - task.next_run) / interval + 1 <= span as int
                / interval + 1) by (nonlinear_arith)
                requires
                    interval > 0,
                    0 <= end - task.next_run <= span,
                    span - (end - task.next_run) <= interval,
            ;
        } else {
            assert(span as int / interval == 0) by (nonlinear_arith)
                requires
                    interval > 0,
                    0 <= span < interval,
            ;
        }
    }
}

} // verus!
