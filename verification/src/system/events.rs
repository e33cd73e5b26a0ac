//! Events, the queue that carries them, and the polled sources that emit them.
//!
//! Time is a count of milliseconds. The caller reads its clock and passes the
//! time in, so every source is a function of what it is handed. Where a time
//! lies before the one it is measured from, no time has passed.

use std::collections::VecDeque;
use vstd::prelude::*;

verus! {

/// Debounce window that a new button source starts with, in milliseconds.
pub const DEFAULT_DEBOUNCE_MS: u64 = 50;

/// Something that happened: input, a timer, or a signal from an application.
#[derive(Debug, PartialEq, Eq)]
pub enum Event {
    ButtonPressed(u32),
    ButtonReleased(u32),
    Timer(u32),
    SystemTick,
    AppLaunched(String),
    AppClosed(String),
    Custom(String),
}

impl Clone for Event {
    fn clone(&self) -> (copy: Self)
        ensures
            copy == *self,
    {
        match self {
            Event::ButtonPressed(pin) => Event::ButtonPressed(*pin),
            Event::ButtonReleased(pin) => Event::ButtonReleased(*pin),
            Event::Timer(id) => Event::Timer(*id),
            Event::SystemTick => Event::SystemTick,
            Event::AppLaunched(name) => Event::AppLaunched(name.clone()),
            Event::AppClosed(name) => Event::AppClosed(name.clone()),
            Event::Custom(tag) => Event::Custom(tag.clone()),
        }
    }
}

/// Contents of a queue after `event` joins at the tail.
pub open spec fn queue_after_push(contents: Seq<Event>, event: Event) -> Seq<Event> {
    contents.push(event)
}

/// What a pop hands out: the head, if there is one.
pub open spec fn queue_head(contents: Seq<Event>) -> Option<Event> {
    if contents.len() == 0 {
        None
    } else {
        Some(contents[0])
    }
}

/// Contents of a queue after a pop: everything but the head.
pub open spec fn queue_after_pop(contents: Seq<Event>) -> Seq<Event> {
    if contents.len() == 0 {
        contents
    } else {
        contents.subrange(1, contents.len() as int)
    }
}

/// First-in first-out queue of events. Its view is the pending events, oldest
/// first.
pub struct EventQueue {
    queue: VecDeque<Event>,
}

impl View for EventQueue {
    type V = Seq<Event>;

    closed spec fn view(&self) -> Seq<Event> {
        self.queue@
    }
}

impl EventQueue {
    /// An empty queue.
    pub fn new() -> (q: Self)
        ensures
            q@ == Seq::<Event>::empty(),
    {
        EventQueue { queue: VecDeque::new() }
    }

    /// Appends `event` at the tail.
    pub fn push(&mut self, event: Event)
        ensures
            final(self)@ == queue_after_push(old(self)@, event),
    {
        self.queue.push_back(event);
    }

    /// Removes and returns the oldest pending event; `None` on an empty queue,
    /// which stays as it was.
    pub fn pop(&mut self) -> (head: Option<Event>)
        ensures
            head == queue_head(old(self)@),
            final(self)@ == queue_after_pop(old(self)@),
    {
        self.queue.pop_front()
    }

    /// A copy of the pending events, oldest first. The queue keeps them.
    pub fn get_queue_clone(&self) -> (pending: Vec<Event>)
        ensures
            pending@ == self@,
    {
        let mut pending: Vec<Event> = Vec::new();
        let mut index: usize = 0;
        while index < self.queue.len()
            invariant
                index <= self.queue.len(),
                pending@ == self.queue@.subrange(0, index as int),
            decreases self.queue.len() - index,
        {
            pending.push(self.queue[index].clone());
            assert(pending@ =~= self.queue@.subrange(0, index + 1));
            index += 1;
        }
        assert(self.queue@.subrange(0, index as int) =~= self.queue@);
        pending
    }

    /// Number of pending events.
    pub fn len(&self) -> (n: usize)
        ensures
            n == self@.len(),
    {
        self.queue.len()
    }

    /// Whether nothing is pending.
    pub fn is_empty(&self) -> (b: bool)
        ensures
            b == (self@.len() == 0),
    {
        self.queue.len() == 0
    }
}


/// Something that takes events one by one and says of each whether it
/// consumed it.
pub trait EventHandler {
    fn handle_event(&mut self, event: &Event) -> bool;
}

/// Milliseconds from `since` to `now`; zero where `now` is the earlier one.
pub open spec fn elapsed_ms(now: u64, since: u64) -> int {
    if now >= since {
        now - since
    } else {
        0
    }
}

/// The event that a button on `pin_number` emits when its line settles at
/// `level_high`. The line is pulled up, so high is released and low is
/// pressed.
pub open spec fn button_event(pin_number: u32, level_high: bool) -> Event {
    if level_high {
        Event::ButtonReleased(pin_number)
    } else {
        Event::ButtonPressed(pin_number)
    }
}

/// Whether a button source accepts the level `level_high`, read at `now`,
/// as a transition: the level differs from the last accepted one, and the
/// last accepted transition, if there was one, lies at least `window`
/// milliseconds back.
pub open spec fn transition_accepted(
    last_state: bool,
    last_event: Option<u64>,
    window: u64,
    level_high: bool,
    now: u64,
) -> bool {
    &&& level_high != last_state
    &&& match last_event {
        Some(at) => elapsed_ms(now, at) >= window,
        None => true,
    }
}

/// Debounced source of the press and release events of one button.
pub struct ButtonEventSource {
    pin_number: u32,
    last_state: bool,
    debounce_time: u64,
    last_event: Option<u64>,
}

impl ButtonEventSource {
    /// The pin whose number the emitted events carry.
    pub closed spec fn spec_pin_number(&self) -> u32 {
        self.pin_number
    }

    /// The level of the last accepted transition; high before the first one.
    pub closed spec fn last_state(&self) -> bool {
        self.last_state
    }

    /// The debounce window, in milliseconds.
    pub closed spec fn debounce_time(&self) -> u64 {
        self.debounce_time
    }

    /// The time of the last accepted transition, if there was one.
    pub closed spec fn last_event(&self) -> Option<u64> {
        self.last_event
    }

    /// Whether the source accepts the level `level_high`, read at `now`, as
    /// a transition.
    pub open spec fn accepts(&self, level_high: bool, now: u64) -> bool {
        transition_accepted(
            self.last_state(),
            self.last_event(),
            self.debounce_time(),
            level_high,
            now,
        )
    }

    /// The source after a poll that read `level_high` at `now`.
    pub closed spec fn after_poll(&self, level_high: bool, now: u64) -> Self {
        if self.accepts(level_high, now) {
            ButtonEventSource {
                pin_number: self.pin_number,
                last_state: level_high,
                debounce_time: self.debounce_time,
                last_event: Some(now),
            }
        } else {
            *self
        }
    }

    /// A poll keeps the pin and the window; an accepted transition becomes
    /// the last one, and anything else changes nothing.
    pub proof fn lemma_after_poll(&self, level_high: bool, now: u64)
        ensures
            self.after_poll(level_high, now).spec_pin_number() == self.spec_pin_number(),
            self.after_poll(level_high, now).debounce_time() == self.debounce_time(),
            self.accepts(level_high, now) ==> {
                &&& self.after_poll(level_high, now).last_state() == level_high
                &&& self.after_poll(level_high, now).last_event() == Some(now)
            },
            !self.accepts(level_high, now) ==> self.after_poll(level_high, now) == *self,
    {
    }

    /// A source for the button on `pin_number`: released, with the default
    /// debounce window and no transition seen yet.
    pub fn new(pin_number: u32) -> (source: Self)
        ensures
            source.spec_pin_number() == pin_number,
            source.last_state() == true,
            source.debounce_time() == DEFAULT_DEBOUNCE_MS,
            source.last_event() is None,
    {
        ButtonEventSource {
            pin_number,
            last_state: true,
            debounce_time: DEFAULT_DEBOUNCE_MS,
            last_event: None,
        }
    }

    /// The pin whose number the emitted events carry.
    pub fn pin_number(&self) -> (pin: u32)
        ensures
            pin == self.spec_pin_number(),
    {
        self.pin_number
    }

    /// Whether the button counts as pressed: the last accepted level is low.
    pub fn is_pressed(&self) -> (pressed: bool)
        ensures
            pressed == !self.last_state(),
    {
        !self.last_state
    }

    /// Takes the level `level_high` that the caller read from the pin at
    /// `now`. An accepted transition appends its event to `queue` and becomes
    /// the last one; anything else changes nothing.
    pub fn poll(&mut self, level_high: bool, now: u64, queue: &mut EventQueue)
        ensures
            *final(self) == old(self).after_poll(level_high, now),
            final(self).spec_pin_number() == old(self).spec_pin_number(),
            final(self).debounce_time() == old(self).debounce_time(),
            old(self).accepts(level_high, now) ==> {
                &&& final(self).last_state() == level_high
                &&& final(self).last_event() == Some(now)
                &&& final(queue)@ == queue_after_push(
                    old(queue)@,
                    button_event(old(self).spec_pin_number(), level_high),
                )
            },
            !old(self).accepts(level_high, now) ==> {
                &&& final(self).last_state() == old(self).last_state()
                &&& final(self).last_event() == old(self).last_event()
                &&& final(queue)@ == old(queue)@
            },
    {
        let settled = match self.last_event {
            Some(at) => {
                let elapsed: u64 = if now >= at {
                    now - at
                } else {
                    0
                };
                elapsed >= self.debounce_time
            },
            None => true,
        };
        if settled && level_high != self.last_state {
            if level_high {
                queue.push(Event::ButtonReleased(self.pin_number));
            } else {
                queue.push(Event::ButtonPressed(self.pin_number));
            }
            self.last_state = level_high;
            self.last_event = Some(now);
        }
    }
}

/// Whether a source that last fired at `last_triggered` fires at `now`.
pub open spec fn interval_elapsed(now: u64, last_triggered: u64, interval: u64) -> bool {
    elapsed_ms(now, last_triggered) >= interval
}

/// Source of a `Timer` event with a fixed id at a fixed interval.
pub struct TimerEventSource {
    timer_id: u32,
    interval: u64,
    last_triggered: u64,
}

impl TimerEventSource {
    /// The id that the emitted events carry.
    pub closed spec fn timer_id(&self) -> u32 {
        self.timer_id
    }

    /// Milliseconds between two events.
    pub closed spec fn interval(&self) -> u64 {
        self.interval
    }

    /// The time of the last event, or of construction before the first.
    pub closed spec fn last_triggered(&self) -> u64 {
        self.last_triggered
    }

    /// A source made at `now` that emits `Timer(timer_id)` every `interval`
    /// milliseconds.
    pub fn new(timer_id: u32, interval: u64, now: u64) -> (source: Self)
        ensures
            source.timer_id() == timer_id,
            source.interval() == interval,
            source.last_triggered() == now,
    {
        TimerEventSource { timer_id, interval, last_triggered: now }
    }

    /// Appends one `Timer` event to `queue` and restarts the interval at
    /// `now` when the interval has passed; changes nothing before that.
    pub fn poll(&mut self, now: u64, queue: &mut EventQueue)
        ensures
            final(self).timer_id() == old(self).timer_id(),
            final(self).interval() == old(self).interval(),
            interval_elapsed(now, old(self).last_triggered(), old(self).interval()) ==> {
                &&& final(self).last_triggered() == now
                &&& final(queue)@ == queue_after_push(
                    old(queue)@,
                    Event::Timer(old(self).timer_id()),
                )
            },
            !interval_elapsed(now, old(self).last_triggered(), old(self).interval()) ==> {
                &&& final(self).last_triggered() == old(self).last_triggered()
                &&& final(queue)@ == old(queue)@
            },
    {
        let elapsed = if now >= self.last_triggered {
            now - self.last_triggered
        } else {
            0
        };
        if elapsed >= self.interval {
            queue.push(Event::Timer(self.timer_id));
            self.last_triggered = now;
        }
    }
}

/// Source of `SystemTick` at a fixed interval.
pub struct SystemTickSource {
    interval: u64,
    last_triggered: u64,
}

impl SystemTickSource {
    /// Milliseconds between two ticks.
    pub closed spec fn interval(&self) -> u64 {
        self.interval
    }

    /// The time of the last tick, or of construction before the first.
    pub closed spec fn last_triggered(&self) -> u64 {
        self.last_triggered
    }

    /// Whether a poll at `now` ticks.
    pub open spec fn ticks(&self, now: u64) -> bool {
        interval_elapsed(now, self.last_triggered(), self.interval())
    }

    /// The source after a poll at `now`.
    pub closed spec fn after_poll(&self, now: u64) -> Self {
        if self.ticks(now) {
            SystemTickSource { interval: self.interval, last_triggered: now }
        } else {
            *self
        }
    }

    /// A poll keeps the interval; a tick restarts the wait at the time of
    /// the poll, and a poll without a tick changes nothing.
    pub proof fn lemma_after_poll(&self, now: u64)
        ensures
            self.after_poll(now).interval() == self.interval(),
            self.ticks(now) ==> self.after_poll(now).last_triggered() == now,
            !self.ticks(now) ==> self.after_poll(now) == *self,
    {
    }

    /// A source made at `now` that ticks every `interval` milliseconds.
    pub fn new(interval: u64, now: u64) -> (source: Self)
        ensures
            source.interval() == interval,
            source.last_triggered() == now,
    {
        SystemTickSource { interval, last_triggered: now }
    }

    /// Appends one `SystemTick` to `queue` and restarts the interval at `now`
    /// when the interval has passed, however long ago: ticks that were
    /// missed are not made up for. Changes nothing before that.
    pub fn poll(&mut self, now: u64, queue: &mut EventQueue)
        ensures
            *final(self) == old(self).after_poll(now),
            final(self).interval() == old(self).interval(),
            old(self).ticks(now) ==> {
                &&& final(self).last_triggered() == now
                &&& final(queue)@ == queue_after_push(old(queue)@, Event::SystemTick)
            },
            !old(self).ticks(now) ==> {
                &&& final(self).last_triggered() == old(self).last_triggered()
                &&& final(queue)@ == old(queue)@
            },
    {
        let elapsed = if now >= self.last_triggered {
            now - self.last_triggered
        } else {
            0
        };
        if elapsed >= self.interval {
            queue.push(Event::SystemTick);
            self.last_triggered = now;
        }
    }
}


/// One step of a queue's use: an event joins, or the head is taken.
pub enum QueueOp {
    Push(Event),
    Pop,
}

/// Contents of a queue that held `contents` after `ops`, in that order.
pub open spec fn queue_after_ops(contents: Seq<Event>, ops: Seq<QueueOp>) -> Seq<Event>
    decreases ops.len(),
{
    if ops.len() == 0 {
        contents
    } else {
        match ops[0] {
            QueueOp::Push(event) => queue_after_ops(
                queue_after_push(contents, event),
                ops.drop_first(),
            ),
            QueueOp::Pop => queue_after_ops(queue_after_pop(contents), ops.drop_first()),
        }
    }
}

/// The events that the pops among `ops` hand out, in that order, from a queue
/// that held `contents`.
pub open spec fn popped_by_ops(contents: Seq<Event>, ops: Seq<QueueOp>) -> Seq<Event>
    decreases ops.len(),
{
    if ops.len() == 0 {
        Seq::empty()
    } else {
        match ops[0] {
            QueueOp::Push(event) => popped_by_ops(
                queue_after_push(contents, event),
                ops.drop_first(),
            ),
            QueueOp::Pop => match queue_head(contents) {
                Some(head) => seq![head] + popped_by_ops(
                    queue_after_pop(contents),
                    ops.drop_first(),
                ),
                None => popped_by_ops(queue_after_pop(contents), ops.drop_first()),
            },
        }
    }
}

/// The events that the pushes among `ops` bring, in that order.
pub open spec fn pushed_by_ops(ops: Seq<QueueOp>) -> Seq<Event>
    decreases ops.len(),
{
    if ops.len() == 0 {
        Seq::empty()
    } else {
        match ops[0] {
            QueueOp::Push(event) => seq![event] + pushed_by_ops(ops.drop_first()),
            QueueOp::Pop => pushed_by_ops(ops.drop_first()),
        }
    }
}

/// First in, first out: however pushes and pops interleave, the events
/// handed out followed by those still pending are the events that were
/// pending at the start followed by those pushed, each in its order. So pops
/// return events in the order in which they were pushed, none twice and none
/// lost.
pub proof fn lemma_queue_is_fifo(contents: Seq<Event>, ops: Seq<QueueOp>)
    ensures
        popped_by_ops(contents, ops) + queue_after_ops(contents, ops) == contents + pushed_by_ops(
            ops,
        ),
    decreases ops.len(),
{
    if ops.len() == 0 {
        assert(popped_by_ops(contents, ops) + queue_after_ops(contents, ops) =~= contents
            + pushed_by_ops(ops));
    } else {
        let rest = ops.drop_first();
        match ops[0] {
            QueueOp::Push(event) => {
                let next = queue_after_push(contents, event);
                lemma_queue_is_fifo(next, rest);
                assert(next + pushed_by_ops(rest) =~= contents + (seq![event] + pushed_by_ops(
                    rest,
                )));
            },
            QueueOp::Pop => {
                let next = queue_after_pop(contents);
                lemma_queue_is_fifo(next, rest);
                match queue_head(contents) {
                    Some(head) => {
                        assert(seq![head] + popped_by_ops(next, rest) + queue_after_ops(next, rest)
                            =~= seq![head] + (popped_by_ops(next, rest) + queue_after_ops(
                            next,
                            rest,
                        )));
                        assert(seq![head] + (next + pushed_by_ops(rest)) =~= contents
                            + pushed_by_ops(rest));
                    },
                    None => {},
                }
            },
        }
    }
}

/// A level read from a pin, with the time of the reading.
pub struct PinSample {
    pub level_high: bool,
    pub at: u64,
}

/// The samples among `samples` that a button source accepts as transitions
/// when it polls them in order, starting from the given state.
pub open spec fn accepted_samples(
    last_state: bool,
    last_event: Option<u64>,
    window: u64,
    samples: Seq<PinSample>,
) -> Seq<PinSample>
    decreases samples.len(),
{
    if samples.len() == 0 {
        Seq::empty()
    } else if transition_accepted(
        last_state,
        last_event,
        window,
        samples[0].level_high,
        samples[0].at,
    ) {
        seq![samples[0]] + accepted_samples(
            samples[0].level_high,
            Some(samples[0].at),
            window,
            samples.drop_first(),
        )
    } else {
        accepted_samples(last_state, last_event, window, samples.drop_first())
    }
}

/// Whether the times of `samples` never decrease and none lies before
/// `floor`.
pub open spec fn samples_in_time_order(floor: u64, samples: Seq<PinSample>) -> bool {
    &&& forall|i: int| 0 <= i < samples.len() ==> floor <= (#[trigger] samples[i]).at
    &&& forall|i: int, j: int| 0 <= i <= j < samples.len() ==> samples[i].at <= samples[j].at
}

/// Debouncing: of samples polled in the order of their times, the accepted
/// ones change level every time, starting with a change from the level the
/// source began with, and two accepted ones in a row lie at least the window
/// apart, as does the first from the last transition before them. A sample
/// inside the window, or one that repeats the last level, emits nothing.
pub proof fn lemma_debounce(
    last_state: bool,
    last_event: Option<u64>,
    window: u64,
    samples: Seq<PinSample>,
)
    requires
        samples_in_time_order(
            match last_event {
                Some(at) => at,
                None => 0,
            },
            samples,
        ),
    ensures
        ({
            let accepted = accepted_samples(last_state, last_event, window, samples);
            &&& accepted.len() <= samples.len()
            &&& accepted.len() > 0 ==> {
                &&& accepted[0].level_high != last_state
                &&& last_event is Some ==> accepted[0].at - last_event->0 >= window
            }
            &&& forall|k: int|
                0 <= k < accepted.len() - 1 ==> {
                    &&& (#[trigger] accepted[k + 1]).level_high != accepted[k].level_high
                    &&& accepted[k + 1].at - accepted[k].at >= window
                }
        }),
    decreases samples.len(),
{
    if samples.len() > 0 {
        let first = samples[0];
        let rest = samples.drop_first();
        let accepted = accepted_samples(last_state, last_event, window, samples);
        assert forall|i: int| 0 <= i < rest.len() implies first.at <= (#[trigger] rest[i]).at by {
            assert(rest[i] == samples[i + 1]);
        }
        assert forall|i: int, j: int| 0 <= i <= j < rest.len() implies rest[i].at
            <= rest[j].at by {
            assert(rest[i] == samples[i + 1] && rest[j] == samples[j + 1]);
        }
        if transition_accepted(last_state, last_event, window, first.level_high, first.at) {
            let tail = accepted_samples(first.level_high, Some(first.at), window, rest);
            lemma_debounce(first.level_high, Some(first.at), window, rest);
            assert(accepted == seq![first] + tail);
            assert forall|k: int| 0 <= k < accepted.len() - 1 implies {
                &&& (#[trigger] accepted[k + 1]).level_high != accepted[k].level_high
                &&& accepted[k + 1].at - accepted[k].at >= window
            } by {
                if k > 0 {
                    assert(accepted[k] == tail[k - 1]);
                    assert(accepted[k + 1] == tail[k - 1 + 1]);
                } else {
                    assert(accepted[1] == tail[0]);
                }
            }
        } else {
            assert forall|i: int| 0 <= i < rest.len() implies (match last_event {
                Some(at) => at,
                None => 0,
            }) <= (#[trigger] rest[i]).at by {
                assert(rest[i] == samples[i + 1]);
            }
            lemma_debounce(last_state, last_event, window, rest);
        }
    }
}

} // verus!
