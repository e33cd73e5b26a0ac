//! One round of the cooperative loop.
//!
//! The loop is the caller's: it reads the pins and the clock, runs one round,
//! carries out on the panel what the round issued, and sleeps.

use crate::drivers::display::{DisplayError, DisplayManager};
use crate::system::events::{button_event, ButtonEventSource, Event, EventQueue, SystemTickSource};
use crate::system::scheduler::{
    fired_tasks, tasks_after_update, timer_events, Scheduler, MAX_TIME_MS,
};
use crate::ui::framework::{
    drawn, events_callbacks_ran, events_ops, model_after_events, Screen, ScreenManager,
};
use vstd::prelude::*;

verus! {

/// The events that `buttons` emit when each is polled with its level of
/// `levels` at `now`, in the order of the buttons.
pub open spec fn buttons_events(
    buttons: Seq<ButtonEventSource>,
    levels: Seq<bool>,
    now: u64,
) -> Seq<Event>
    recommends
        levels.len() == buttons.len(),
    decreases buttons.len(),
{
    if buttons.len() == 0 || levels.len() == 0 {
        Seq::empty()
    } else if buttons.last().accepts(levels.last(), now) {
        buttons_events(buttons.drop_last(), levels.drop_last(), now).push(
            button_event(buttons.last().spec_pin_number(), levels.last()),
        )
    } else {
        buttons_events(buttons.drop_last(), levels.drop_last(), now)
    }
}

/// The tick of a poll of `ticks` at `now`, if it ticks.
pub open spec fn tick_events(ticks: SystemTickSource, now: u64) -> Seq<Event> {
    if ticks.ticks(now) {
        seq![Event::SystemTick]
    } else {
        Seq::empty()
    }
}

/// The events of one round at `now`, in the order in which the screen sees
/// them: those that were pending, then those of the buttons, then the tick,
/// then those of the timers. So within one round input comes before timers.
pub open spec fn round_events<F>(
    pending: Seq<Event>,
    buttons: Seq<ButtonEventSource>,
    levels: Seq<bool>,
    ticks: SystemTickSource,
    tasks: Seq<crate::system::scheduler::ScheduledTask<F>>,
    now: u64,
) -> Seq<Event> {
    pending + buttons_events(buttons, levels, now) + tick_events(ticks, now) + timer_events(
        fired_tasks(tasks, now),
    )
}

/// Runs one round of the loop at `now`: polls every button with its level of
/// `levels`, polls the tick source, lets the scheduler run what is due, and
/// hands every event to the active screen. Nothing stays pending.
pub fn run_cycle<F: Fn()>(
    buttons: &mut Vec<ButtonEventSource>,
    levels: &Vec<bool>,
    ticks: &mut SystemTickSource,
    scheduler: &mut Scheduler<F>,
    screens: &mut ScreenManager<F>,
    queue: &mut EventQueue,
    now: u64,
    display: &mut DisplayManager,
) -> (result: Result<(), DisplayError>)
    requires
        levels.len() == old(buttons).len(),
        old(scheduler).wf(),
        now <= MAX_TIME_MS,
        old(screens).wf(),
        round_events(
            old(queue)@,
            old(buttons)@,
            levels@,
            *old(ticks),
            old(scheduler).tasks(),
            now,
        ).len() > 0 ==> old(screens).screens().len() > 0,
    ensures
        result is Ok,
        final(buttons).len() == old(buttons).len(),
        forall|i: int|
            0 <= i < old(buttons).len() ==> #[trigger] final(buttons)@[i] == old(
                buttons,
            )@[i].after_poll(levels@[i], now),
        *final(ticks) == old(ticks).after_poll(now),
        final(scheduler).wf(),
        final(scheduler).spec_next_id() == old(scheduler).spec_next_id(),
        final(scheduler).tasks() == tasks_after_update(old(scheduler).tasks(), now),
        forall|i: int|
            0 <= i < fired_tasks(old(scheduler).tasks(), now).len() ==> call_ensures(
                (#[trigger] fired_tasks(old(scheduler).tasks(), now)[i]).callback,
                (),
                (),
            ),
        final(queue)@ == Seq::<Event>::empty(),
        final(screens).wf(),
        final(screens).current_screen() == old(screens).current_screen(),
        final(screens).screens().len() == old(screens).screens().len(),
        forall|i: int|
            0 <= i < old(screens).screens().len() && i != old(screens).current_screen()
                ==> #[trigger] final(screens).screens()[i] == old(screens).screens()[i],
        old(screens).screens().len() > 0 ==> ({
            let active = old(screens).screens()[old(screens).current_screen() as int].model();
            let events = round_events(
                old(queue)@,
                old(buttons)@,
                levels@,
                *old(ticks),
                old(scheduler).tasks(),
                now,
            );
            &&& final(screens).screens()[old(screens).current_screen() as int].model()
                == model_after_events(active, events, now, old(display).is_online())
            &&& drawn(*old(display), *final(display), events_ops(active, events, now))
            &&& events_callbacks_ran(active, events, now, old(display).is_online())
        }),
        old(screens).screens().len() == 0 ==> final(display)@ == old(display)@,
        old(screens).screens().len() == 0 ==> final(display).is_online() == old(
            display,
        ).is_online(),
{
    let ghost pending = queue@;
    let ghost sources = buttons@;
    let mut index: usize = 0;
    while index < buttons.len()
        invariant
            index <= buttons.len(),
            buttons.len() == sources.len(),
            levels.len() == sources.len(),
            forall|i: int|
                0 <= i < index ==> #[trigger] buttons@[i] == sources[i].after_poll(levels@[i], now),
            forall|i: int| index <= i < buttons.len() ==> #[trigger] buttons@[i] == sources[i],
            queue@ == pending + buttons_events(
                sources.subrange(0, index as int),
                levels@.subrange(0, index as int),
                now,
            ),
        decreases buttons.len() - index,
    {
        let ghost before = buttons@;
        let ghost queued = queue@;
        buttons[index].poll(levels[index], now, queue);
        proof {
            let upto = sources.subrange(0, index + 1);
            let read = levels@.subrange(0, index + 1);
            assert(upto.drop_last() == sources.subrange(0, index as int));
            assert(read.drop_last() == levels@.subrange(0, index as int));
            assert(upto.last() == sources[index as int]);
            assert(read.last() == levels@[index as int]);
            assert(before[index as int] == sources[index as int]);
            assert(queue@ =~= pending + buttons_events(upto, read, now));
            assert forall|i: int| 0 <= i < index implies #[trigger] buttons@[i]
                == sources[i].after_poll(levels@[i], now) by {
                assert(buttons@[i] == before[i]);
            }
            assert forall|i: int| index < i < buttons.len() implies #[trigger] buttons@[i]
                == sources[i] by {
                assert(buttons@[i] == before[i]);
            }
        }
        index += 1;
    }
    proof {
        assert(sources.subrange(0, index as int) == sources);
        assert(levels@.subrange(0, index as int) == levels@);
    }
    ticks.poll(now, queue);
    let ghost polled = queue@;
    assert(polled =~= pending + buttons_events(sources, levels@, now) + tick_events(
        *old(ticks),
        now,
    ));
    scheduler.update(now, queue);
    screens.process_events(queue, now, display)
}

} // verus!
