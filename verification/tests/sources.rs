use visionhub_os::system::events::{
    ButtonEventSource, Event, EventQueue, SystemTickSource, TimerEventSource,
};

fn drain(queue: &mut EventQueue) -> Vec<Event> {
    let mut events = Vec::new();
    while let Some(event) = queue.pop() {
        events.push(event);
    }
    events
}

#[test]
fn debounce_filters_chatter() {
    let mut queue = EventQueue::new();
    let mut source = ButtonEventSource::new(26);
    source.poll(false, 0, &mut queue);
    assert_eq!(drain(&mut queue), vec![Event::ButtonPressed(26)]);
    source.poll(true, 10, &mut queue);
    assert!(queue.is_empty());
    source.poll(false, 20, &mut queue);
    assert!(queue.is_empty());
    source.poll(true, 60, &mut queue);
    assert_eq!(drain(&mut queue), vec![Event::ButtonReleased(26)]);
}

#[test]
fn button_source_starts_released() {
    let mut queue = EventQueue::new();
    let mut source = ButtonEventSource::new(25);
    assert_eq!(source.pin_number(), 25);
    assert!(!source.is_pressed());
    source.poll(true, 0, &mut queue);
    source.poll(true, 1000, &mut queue);
    assert!(queue.is_empty());
    assert!(!source.is_pressed());
}

#[test]
fn debounce_window_is_fifty_milliseconds() {
    let mut queue = EventQueue::new();
    let mut source = ButtonEventSource::new(7);
    source.poll(false, 100, &mut queue);
    assert!(source.is_pressed());
    source.poll(true, 149, &mut queue);
    assert!(source.is_pressed());
    assert_eq!(drain(&mut queue), vec![Event::ButtonPressed(7)]);
    source.poll(true, 150, &mut queue);
    assert!(!source.is_pressed());
    assert_eq!(drain(&mut queue), vec![Event::ButtonReleased(7)]);
}

#[test]
fn debounce_emits_one_event_for_each_accepted_transition() {
    let mut queue = EventQueue::new();
    let mut source = ButtonEventSource::new(3);
    let samples: [(bool, u64); 10] = [
        (true, 0),
        (false, 5),
        (false, 30),
        (true, 40),
        (true, 55),
        (false, 60),
        (false, 105),
        (true, 154),
        (true, 155),
        (false, 1000),
    ];
    for (level, at) in samples {
        source.poll(level, at, &mut queue);
    }
    assert_eq!(
        drain(&mut queue),
        vec![
            Event::ButtonPressed(3),
            Event::ButtonReleased(3),
            Event::ButtonPressed(3),
            Event::ButtonReleased(3),
            Event::ButtonPressed(3),
        ]
    );
}

#[test]
fn debounce_ignores_a_clock_that_runs_backwards() {
    let mut queue = EventQueue::new();
    let mut source = ButtonEventSource::new(3);
    source.poll(false, 500, &mut queue);
    source.poll(true, 100, &mut queue);
    assert_eq!(drain(&mut queue), vec![Event::ButtonPressed(3)]);
    assert!(source.is_pressed());
}

#[test]
fn tick_source_ticks_once_for_each_poll() {
    let mut queue = EventQueue::new();
    let mut ticks = SystemTickSource::new(100, 0);
    ticks.poll(99, &mut queue);
    assert!(queue.is_empty());
    ticks.poll(350, &mut queue);
    assert_eq!(drain(&mut queue), vec![Event::SystemTick]);
    ticks.poll(360, &mut queue);
    assert!(queue.is_empty());
    ticks.poll(449, &mut queue);
    assert!(queue.is_empty());
    ticks.poll(450, &mut queue);
    assert_eq!(drain(&mut queue), vec![Event::SystemTick]);
}

#[test]
fn tick_source_with_no_interval_ticks_at_every_poll() {
    let mut queue = EventQueue::new();
    let mut ticks = SystemTickSource::new(0, 10);
    ticks.poll(10, &mut queue);
    ticks.poll(10, &mut queue);
    ticks.poll(5, &mut queue);
    assert_eq!(queue.len(), 3);
}

#[test]
fn timer_source_fires_with_its_id() {
    let mut queue = EventQueue::new();
    let mut timer = TimerEventSource::new(9, 20, 1000);
    timer.poll(1019, &mut queue);
    assert!(queue.is_empty());
    timer.poll(1020, &mut queue);
    assert_eq!(drain(&mut queue), vec![Event::Timer(9)]);
    timer.poll(1039, &mut queue);
    assert!(queue.is_empty());
    timer.poll(1100, &mut queue);
    timer.poll(1119, &mut queue);
    timer.poll(1120, &mut queue);
    assert_eq!(drain(&mut queue), vec![Event::Timer(9), Event::Timer(9)]);
}

#[test]
fn timer_source_waits_while_the_clock_is_behind() {
    let mut queue = EventQueue::new();
    let mut timer = TimerEventSource::new(1, 20, 1000);
    timer.poll(0, &mut queue);
    timer.poll(999, &mut queue);
    assert!(queue.is_empty());
}

#[test]
fn two_sources_share_one_queue_in_poll_order() {
    let mut queue = EventQueue::new();
    let mut nav = ButtonEventSource::new(25);
    let mut select = ButtonEventSource::new(26);
    nav.poll(false, 0, &mut queue);
    select.poll(false, 0, &mut queue);
    nav.poll(true, 60, &mut queue);
    select.poll(true, 60, &mut queue);
    assert_eq!(
        drain(&mut queue),
        vec![
            Event::ButtonPressed(25),
            Event::ButtonPressed(26),
            Event::ButtonReleased(25),
            Event::ButtonReleased(26),
        ]
    );
}
