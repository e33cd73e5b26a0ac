use std::cell::Cell;
use std::rc::Rc;
use visionhub_os::system::events::{ButtonEventSource, Event, EventQueue};
use visionhub_os::system::scheduler::{Scheduler, MAX_TIME_MS};

type Callback = Box<dyn Fn()>;

fn counting(counter: &Rc<Cell<u32>>) -> Callback {
    let counter = Rc::clone(counter);
    Box::new(move || counter.set(counter.get() + 1))
}

fn nothing() -> Callback {
    Box::new(|| {})
}

fn drain(queue: &mut EventQueue) -> Vec<Event> {
    let mut events = Vec::new();
    while let Some(event) = queue.pop() {
        events.push(event);
    }
    events
}

#[test]
fn scheduler_hands_out_ids_that_count_up() {
    let mut scheduler: Scheduler<Callback> = Scheduler::new();
    assert_eq!(scheduler.next_id(), 0);
    assert_eq!(scheduler.schedule_once(0, 10, nothing()), 0);
    assert_eq!(scheduler.schedule_recurring(0, 5, 5, nothing()), 1);
    assert_eq!(scheduler.schedule_once(0, 1, nothing()), 2);
    assert_eq!(scheduler.next_id(), 3);
    assert_eq!(scheduler.task_count(), 3);
    assert!(scheduler.cancel_task(1));
    assert_eq!(scheduler.schedule_once(0, 1, nothing()), 3);
}

#[test]
fn scheduler_runs_tasks_earliest_first() {
    let mut queue = EventQueue::new();
    let mut scheduler: Scheduler<Callback> = Scheduler::new();
    let late = scheduler.schedule_once(1000, 30, nothing());
    let early = scheduler.schedule_once(1000, 10, nothing());
    let middle = scheduler.schedule_once(1000, 20, nothing());
    assert_eq!(scheduler.next_deadline(), Some(1010));
    scheduler.update(1031, &mut queue);
    assert_eq!(
        drain(&mut queue),
        vec![Event::Timer(early), Event::Timer(middle), Event::Timer(late)]
    );
    assert_eq!(scheduler.task_count(), 0);
    assert_eq!(scheduler.next_deadline(), None);
}

#[test]
fn scheduler_runs_tasks_with_rising_delays_in_their_order() {
    let mut queue = EventQueue::new();
    let mut scheduler: Scheduler<Callback> = Scheduler::new();
    let delays: [u64; 6] = [0, 5, 5, 7, 40, 40];
    let mut ids = Vec::new();
    for delay in delays {
        ids.push(scheduler.schedule_once(200, delay, nothing()));
    }
    scheduler.update(241, &mut queue);
    let expected: Vec<Event> = ids.iter().map(|id| Event::Timer(*id)).collect();
    assert_eq!(drain(&mut queue), expected);
}

#[test]
fn scheduler_runs_only_what_is_due() {
    let calls = Rc::new(Cell::new(0));
    let mut queue = EventQueue::new();
    let mut scheduler: Scheduler<Callback> = Scheduler::new();
    let first = scheduler.schedule_once(0, 10, counting(&calls));
    let second = scheduler.schedule_once(0, 20, counting(&calls));
    scheduler.update(9, &mut queue);
    assert!(queue.is_empty());
    assert_eq!(calls.get(), 0);
    scheduler.update(10, &mut queue);
    assert_eq!(drain(&mut queue), vec![Event::Timer(first)]);
    assert_eq!(calls.get(), 1);
    assert_eq!(scheduler.task_count(), 1);
    scheduler.update(19, &mut queue);
    assert!(queue.is_empty());
    scheduler.update(20, &mut queue);
    assert_eq!(drain(&mut queue), vec![Event::Timer(second)]);
    assert_eq!(calls.get(), 2);
    scheduler.update(10_000, &mut queue);
    assert!(queue.is_empty());
    assert_eq!(calls.get(), 2);
}

#[test]
fn scheduler_recurring_then_cancelled() {
    let calls = Rc::new(Cell::new(0));
    let mut queue = EventQueue::new();
    let mut scheduler: Scheduler<Callback> = Scheduler::new();
    let id = scheduler.schedule_recurring(0, 10, 10, counting(&calls));
    for now in 1..=35u64 {
        scheduler.update(now, &mut queue);
    }
    assert_eq!(calls.get(), 3);
    assert_eq!(
        drain(&mut queue),
        vec![Event::Timer(id), Event::Timer(id), Event::Timer(id)]
    );
    assert!(scheduler.cancel_task(id));
    for now in 36..=135u64 {
        scheduler.update(now, &mut queue);
    }
    assert_eq!(calls.get(), 3);
    assert!(queue.is_empty());
    assert_eq!(scheduler.task_count(), 0);
}

#[test]
fn scheduler_recurring_task_keeps_its_id() {
    let mut queue = EventQueue::new();
    let mut scheduler: Scheduler<Callback> = Scheduler::new();
    let other = scheduler.schedule_once(0, 1000, nothing());
    let id = scheduler.schedule_recurring(0, 0, 25, nothing());
    scheduler.update(0, &mut queue);
    assert_eq!(scheduler.next_deadline(), Some(25));
    scheduler.update(30, &mut queue);
    assert_eq!(scheduler.next_deadline(), Some(55));
    scheduler.update(54, &mut queue);
    scheduler.update(55, &mut queue);
    assert_eq!(
        drain(&mut queue),
        vec![Event::Timer(id), Event::Timer(id), Event::Timer(id)]
    );
    assert_ne!(id, other);
    assert_eq!(scheduler.task_count(), 2);
}

#[test]
fn scheduler_never_runs_a_recurring_task_too_often() {
    let interval = 10u64;
    for step in [1u64, 3, 7, 10, 11, 35] {
        let calls = Rc::new(Cell::new(0));
        let mut queue = EventQueue::new();
        let mut scheduler: Scheduler<Callback> = Scheduler::new();
        scheduler.schedule_recurring(0, 0, interval, counting(&calls));
        let span = 35u64;
        let mut now = 0u64;
        while now <= span {
            scheduler.update(now, &mut queue);
            now += step;
        }
        assert!(u64::from(calls.get()) <= span / interval + 1);
        assert!(calls.get() >= 1);
        if step == 1 {
            assert_eq!(calls.get(), 4);
        }
    }
}

#[test]
fn scheduler_runs_a_task_once_in_one_update() {
    let calls = Rc::new(Cell::new(0));
    let mut queue = EventQueue::new();
    let mut scheduler: Scheduler<Callback> = Scheduler::new();
    let id = scheduler.schedule_recurring(0, 0, 0, counting(&calls));
    scheduler.update(100, &mut queue);
    assert_eq!(calls.get(), 1);
    assert_eq!(drain(&mut queue), vec![Event::Timer(id)]);
    scheduler.update(100, &mut queue);
    assert_eq!(calls.get(), 2);
    assert_eq!(scheduler.task_count(), 1);
}

#[test]
fn scheduler_cancel_of_an_unknown_id_changes_nothing() {
    let calls = Rc::new(Cell::new(0));
    let mut queue = EventQueue::new();
    let mut scheduler: Scheduler<Callback> = Scheduler::new();
    assert!(!scheduler.cancel_task(0));
    let id = scheduler.schedule_once(0, 5, counting(&calls));
    assert!(!scheduler.cancel_task(id + 1));
    assert!(!scheduler.cancel_task(u32::MAX));
    assert_eq!(scheduler.task_count(), 1);
    assert_eq!(scheduler.next_id(), 1);
    scheduler.update(5, &mut queue);
    assert_eq!(calls.get(), 1);
    assert_eq!(drain(&mut queue), vec![Event::Timer(id)]);
    assert!(!scheduler.cancel_task(id));
}

#[test]
fn scheduler_cancel_keeps_the_others_in_order() {
    let mut queue = EventQueue::new();
    let mut scheduler: Scheduler<Callback> = Scheduler::new();
    let a = scheduler.schedule_once(0, 10, nothing());
    let b = scheduler.schedule_once(0, 20, nothing());
    let c = scheduler.schedule_once(0, 30, nothing());
    assert!(scheduler.cancel_task(b));
    assert_eq!(scheduler.task_count(), 2);
    scheduler.update(100, &mut queue);
    assert_eq!(drain(&mut queue), vec![Event::Timer(a), Event::Timer(c)]);
}

#[test]
fn scheduler_accepts_the_largest_times() {
    let mut queue = EventQueue::new();
    let mut scheduler: Scheduler<Callback> = Scheduler::new();
    let id = scheduler.schedule_recurring(MAX_TIME_MS, MAX_TIME_MS, MAX_TIME_MS, nothing());
    assert_eq!(scheduler.next_deadline(), Some(u64::MAX - 1));
    scheduler.update(MAX_TIME_MS, &mut queue);
    assert!(queue.is_empty());
    assert!(scheduler.cancel_task(id));
}

#[test]
fn input_events_come_before_timer_events_of_one_round() {
    let mut queue = EventQueue::new();
    let mut scheduler: Scheduler<Callback> = Scheduler::new();
    let mut button = ButtonEventSource::new(26);
    let id = scheduler.schedule_once(0, 0, nothing());
    button.poll(false, 10, &mut queue);
    scheduler.update(10, &mut queue);
    assert_eq!(
        drain(&mut queue),
        vec![Event::ButtonPressed(26), Event::Timer(id)]
    );
}
