use std::cell::Cell;
use std::rc::Rc;
use visionhub_os::drivers::display::{DisplayError, DisplayManager, DrawCommand, TextSize};
use visionhub_os::system::events::{Event, EventQueue, SystemTickSource};
use visionhub_os::ui::framework::{
    AnyScreen, AnyWidget, Button, DefaultScreen, Label, ProgressBar, Screen, ScreenManager,
};
use visionhub_os::ui::screens::home::HomeScreen;
use visionhub_os::ui::screens::loading::{boot_message, LoadingScreen};
use visionhub_os::ui::screens::menu::{MenuItem, MenuScreen};

type Callback = Box<dyn Fn()>;

fn counting(counter: &Rc<Cell<u32>>) -> Callback {
    let counter = Rc::clone(counter);
    Box::new(move || counter.set(counter.get() + 1))
}

fn text(content: &str, x: i32, y: i32, size: TextSize) -> DrawCommand {
    DrawCommand::Text { text: String::from(content), x, y, size }
}

fn rect(x: i32, y: i32, width: u32, height: u32, filled: bool) -> DrawCommand {
    DrawCommand::Rectangle { x, y, width, height, filled }
}

fn pressed(screen: &DefaultScreen<Callback>, index: usize) -> bool {
    match screen.get_widget(index) {
        Some(AnyWidget::Button(button)) => button.is_pressed(),
        _ => panic!("no button at {}", index),
    }
}

fn two_button_screen(first: &Rc<Cell<u32>>, second: &Rc<Cell<u32>>) -> DefaultScreen<Callback> {
    let mut screen: DefaultScreen<Callback> = DefaultScreen::new();
    screen.add_widget(AnyWidget::Label(Label::new("Title", 0, 0, TextSize::Normal)));
    let mut one = Button::new("One", 0, 12, 40, 14);
    one.set_on_click(counting(first));
    screen.add_widget(AnyWidget::Button(one));
    let mut two = Button::new("Two", 50, 12, 40, 14);
    two.set_on_click(counting(second));
    screen.add_widget(AnyWidget::Button(two));
    screen.add_widget(AnyWidget::ProgressBar(ProgressBar::new(0, 30, 100, 10)));
    screen
}

#[test]
fn default_screen_draws_its_widgets_in_order() {
    let first = Rc::new(Cell::new(0));
    let second = Rc::new(Cell::new(0));
    let screen = two_button_screen(&first, &second);
    assert_eq!(screen.widget_count(), 4);
    let mut display = DisplayManager::new();
    assert_eq!(screen.draw(&mut display), Ok(()));
    assert_eq!(
        display.take_commands(),
        vec![
            DrawCommand::Clear,
            text("Title", 0, 0, TextSize::Normal),
            rect(0, 12, 40, 14, false),
            text("One", 11, 14, TextSize::Normal),
            rect(50, 12, 40, 14, false),
            text("Two", 61, 14, TextSize::Normal),
            rect(0, 30, 100, 8, false),
            rect(1, 31, 8, 6, true),
            DrawCommand::Flush,
        ]
    );
}

#[test]
fn default_screen_without_widgets_draws_an_empty_frame() {
    let screen: DefaultScreen<Callback> = DefaultScreen::new();
    let mut display = DisplayManager::new();
    assert_eq!(screen.draw(&mut display), Ok(()));
    assert_eq!(display.take_commands(), vec![DrawCommand::Clear, DrawCommand::Flush]);
    assert!(screen.get_widget(0).is_none());
}

#[test]
fn default_screen_routes_an_event_to_the_first_consumer_only() {
    let first = Rc::new(Cell::new(0));
    let second = Rc::new(Cell::new(0));
    let mut screen = two_button_screen(&first, &second);
    let mut display = DisplayManager::new();
    assert!(screen.handle_event(&Event::ButtonPressed(26), 0, &mut display));
    assert!(pressed(&screen, 1));
    assert!(!pressed(&screen, 2));
    assert!(screen.handle_event(&Event::ButtonReleased(26), 0, &mut display));
    assert!(!pressed(&screen, 1));
    assert!(!pressed(&screen, 2));
    assert_eq!(first.get(), 1);
    assert_eq!(second.get(), 0);
}

#[test]
fn default_screen_draws_again_after_a_consumed_event() {
    let first = Rc::new(Cell::new(0));
    let second = Rc::new(Cell::new(0));
    let mut screen = two_button_screen(&first, &second);
    let mut display = DisplayManager::new();
    assert!(screen.handle_event(&Event::ButtonPressed(26), 0, &mut display));
    let frame = display.take_commands();
    assert_eq!(frame.len(), 9);
    assert_eq!(frame[0], DrawCommand::Clear);
    assert_eq!(frame[2], rect(0, 12, 40, 14, true));
    assert_eq!(frame[4], rect(50, 12, 40, 14, false));
    assert_eq!(frame[8], DrawCommand::Flush);
}

#[test]
fn default_screen_leaves_unconsumed_events_alone() {
    let first = Rc::new(Cell::new(0));
    let second = Rc::new(Cell::new(0));
    let mut screen = two_button_screen(&first, &second);
    let mut display = DisplayManager::new();
    for event in [Event::ButtonPressed(25), Event::SystemTick, Event::Timer(26)] {
        assert!(!screen.handle_event(&event, 0, &mut display));
    }
    assert_eq!(display.pending(), 0);
    assert!(!pressed(&screen, 1));
    assert_eq!(first.get() + second.get(), 0);
    let mut plain: DefaultScreen<Callback> = DefaultScreen::new();
    plain.add_widget(AnyWidget::Label(Label::new("only text", 0, 0, TextSize::Small)));
    assert!(!plain.handle_event(&Event::ButtonPressed(26), 0, &mut display));
    assert_eq!(display.pending(), 0);
}

#[test]
fn default_screen_handles_the_event_though_the_drawing_fails() {
    let first = Rc::new(Cell::new(0));
    let second = Rc::new(Cell::new(0));
    let mut screen = two_button_screen(&first, &second);
    let mut display = DisplayManager::new();
    display.set_online(false);
    assert!(screen.handle_event(&Event::ButtonPressed(26), 0, &mut display));
    assert!(pressed(&screen, 1));
    assert_eq!(display.pending(), 0);
    assert_eq!(screen.draw(&mut display), Err(DisplayError::DrawError));
}

#[test]
fn boot_splash_reaches_completion() {
    let mut queue = EventQueue::new();
    let mut display = DisplayManager::new();
    let mut manager: ScreenManager<Callback> = ScreenManager::new();
    manager.add_screen(AnyScreen::Loading(LoadingScreen::new("visionHubOS", "Booting...", 0)));
    assert_eq!(manager.switch_to_screen(0, &mut display), Ok(()));
    let mut ticks = SystemTickSource::new(100, 0);
    let mut now = 0u64;
    for round in 1..=100u32 {
        now += 100;
        ticks.poll(now, &mut queue);
        assert_eq!(queue.len(), 1);
        assert_eq!(manager.process_events(&mut queue, now, &mut display), Ok(()));
        let screen = manager.get_screen_as_mut::<LoadingScreen>().unwrap();
        assert_eq!(u32::from(screen.get_progress()), round);
        assert_eq!(screen.is_complete(), round == 100);
    }
    let screen = manager.get_screen_as_mut::<LoadingScreen>().unwrap();
    assert_eq!(screen.get_progress(), 100);
    assert!(screen.is_complete());
    assert_eq!(screen.get_message(), "Booting...");
}

#[test]
fn boot_splash_draws_title_message_and_bar() {
    let screen = LoadingScreen::new("visionHubOS", "Booting...", 0);
    let mut display = DisplayManager::new();
    assert_eq!(screen.draw(&mut display), Ok(()));
    assert_eq!(
        display.take_commands(),
        vec![
            DrawCommand::Clear,
            text("visionHubOS", 10, 10, TextSize::Normal),
            text("Booting...", 10, 30, TextSize::Small),
            rect(10, 45, 108, 8, false),
            DrawCommand::Flush,
        ]
    );
}

#[test]
fn boot_splash_steps_once_per_step_time() {
    let mut display = DisplayManager::new();
    let mut screen = LoadingScreen::new("t", "m", 1000);
    assert!(screen.handle_event(&Event::SystemTick, 1099, &mut display));
    assert_eq!(screen.get_progress(), 0);
    assert_eq!(display.pending(), 0);
    assert!(screen.handle_event(&Event::SystemTick, 1100, &mut display));
    assert_eq!(screen.get_progress(), 1);
    assert_eq!(display.take_commands().len(), 6);
    assert!(screen.handle_event(&Event::SystemTick, 1150, &mut display));
    assert!(screen.handle_event(&Event::SystemTick, 1199, &mut display));
    assert_eq!(screen.get_progress(), 1);
    assert_eq!(screen.update(5000, &mut display), Ok(()));
    assert_eq!(screen.get_progress(), 2);
    assert!(!screen.handle_event(&Event::ButtonPressed(26), 9000, &mut display));
    assert!(!screen.handle_event(&Event::Timer(0), 9000, &mut display));
    assert_eq!(screen.get_progress(), 2);
}

#[test]
fn boot_splash_stops_at_hundred() {
    let mut display = DisplayManager::new();
    let mut screen = LoadingScreen::new("t", "m", 0);
    screen.set_progress(99);
    assert!(!screen.is_complete());
    assert_eq!(screen.update(100, &mut display), Ok(()));
    assert!(screen.is_complete());
    assert_eq!(screen.get_progress(), 100);
    display.take_commands();
    assert_eq!(screen.update(200, &mut display), Ok(()));
    assert_eq!(screen.update(300, &mut display), Ok(()));
    assert_eq!(screen.get_progress(), 100);
    assert_eq!(display.pending(), 0);
    screen.set_progress(200);
    assert_eq!(screen.get_progress(), 100);
    screen.set_progress(30);
    assert_eq!(screen.get_progress(), 30);
    assert_eq!(screen.draw(&mut display), Ok(()));
    assert_eq!(display.take_commands()[4], rect(11, 46, 30, 6, true));
}

#[test]
fn boot_splash_keeps_the_step_due_when_the_drawing_fails() {
    let mut display = DisplayManager::new();
    display.set_online(false);
    let mut screen = LoadingScreen::new("t", "m", 0);
    assert_eq!(screen.update(100, &mut display), Err(DisplayError::DrawError));
    assert_eq!(screen.get_progress(), 1);
    display.set_online(true);
    assert_eq!(screen.update(101, &mut display), Ok(()));
    assert_eq!(screen.get_progress(), 2);
    assert_eq!(screen.update(102, &mut display), Ok(()));
    assert_eq!(screen.get_progress(), 2);
}

#[test]
fn boot_splash_message_can_be_replaced() {
    let mut display = DisplayManager::new();
    let mut screen = LoadingScreen::new("visionHubOS", "Booting...", 0);
    screen.set_message("Loading drivers...");
    assert_eq!(screen.get_message(), "Loading drivers...");
    assert_eq!(screen.draw(&mut display), Ok(()));
    assert_eq!(
        display.take_commands()[2],
        text("Loading drivers...", 10, 30, TextSize::Small)
    );
}

#[test]
fn home_screen_counts_presses() {
    let mut display = DisplayManager::new();
    let mut home: HomeScreen<Callback> = HomeScreen::new();
    assert_eq!(home.get_status(), "System Ready");
    assert_eq!(home.get_counter(), 0);
    assert!(home.handle_event(&Event::ButtonPressed(26), 0, &mut display));
    assert!(home.handle_event(&Event::ButtonReleased(26), 0, &mut display));
    assert_eq!(home.get_status(), "Count: 1");
    assert!(home.handle_event(&Event::ButtonPressed(26), 0, &mut display));
    assert!(home.handle_event(&Event::ButtonReleased(26), 0, &mut display));
    assert_eq!(home.get_status(), "Count: 2");
    assert_eq!(home.get_counter(), 2);
}

#[test]
fn home_screen_ignores_other_events() {
    let mut display = DisplayManager::new();
    let mut home: HomeScreen<Callback> = HomeScreen::new();
    for event in [
        Event::ButtonPressed(25),
        Event::ButtonReleased(25),
        Event::SystemTick,
        Event::Timer(26),
    ] {
        assert!(!home.handle_event(&event, 0, &mut display));
    }
    assert_eq!(home.get_status(), "System Ready");
    assert_eq!(home.get_counter(), 0);
    assert_eq!(display.pending(), 0);
}

#[test]
fn home_screen_draws_its_parts() {
    let mut display = DisplayManager::new();
    let mut home: HomeScreen<Callback> = HomeScreen::new();
    assert_eq!(home.draw(&mut display), Ok(()));
    assert_eq!(
        display.take_commands(),
        vec![
            DrawCommand::Clear,
            text("visionHub OS Home", 5, 5, TextSize::Normal),
            text("System Ready", 5, 20, TextSize::Small),
            rect(5, 35, 50, 20, false),
            text("Menu", 18, 40, TextSize::Normal),
            rect(70, 35, 50, 20, false),
            text("Settings", 71, 40, TextSize::Normal),
            DrawCommand::Flush,
        ]
    );
    assert!(home.handle_event(&Event::ButtonPressed(26), 0, &mut display));
    assert_eq!(display.pending(), 0);
    assert_eq!(home.draw(&mut display), Ok(()));
    let frame = display.take_commands();
    assert_eq!(frame[2], text("Count: 1", 5, 20, TextSize::Small));
    assert_eq!(frame[3], rect(5, 35, 50, 20, true));
    assert_eq!(frame[5], rect(70, 35, 50, 20, false));
}

#[test]
fn home_screen_status_can_be_set() {
    let mut home: HomeScreen<Callback> = HomeScreen::new();
    home.update_status("Battery low");
    assert_eq!(home.get_status(), "Battery low");
    home.increment_counter();
    assert_eq!(home.get_status(), "Count: 1");
    for _ in 0..11 {
        home.increment_counter();
    }
    assert_eq!(home.get_status(), "Count: 12");
}

fn three_item_menu(
    a: &Rc<Cell<u32>>,
    b: &Rc<Cell<u32>>,
    c: &Rc<Cell<u32>>,
) -> MenuScreen<Callback> {
    let mut menu: MenuScreen<Callback> = MenuScreen::new("Menu");
    menu.add_item("A", counting(a));
    menu.add_item("B", counting(b));
    menu.add_item("C", counting(c));
    menu
}

#[test]
fn menu_navigation() {
    let a = Rc::new(Cell::new(0));
    let b = Rc::new(Cell::new(0));
    let c = Rc::new(Cell::new(0));
    let mut display = DisplayManager::new();
    let mut menu = three_item_menu(&a, &b, &c);
    assert_eq!(menu.get_selected_index(), 0);
    assert!(menu.handle_event(&Event::ButtonPressed(33), 0, &mut display));
    assert_eq!(menu.get_selected_index(), 1);
    assert!(menu.handle_event(&Event::ButtonPressed(33), 0, &mut display));
    assert_eq!(menu.get_selected_index(), 2);
    assert!(menu.handle_event(&Event::ButtonPressed(33), 0, &mut display));
    assert_eq!(menu.get_selected_index(), 0);
    assert!(menu.handle_event(&Event::ButtonPressed(32), 0, &mut display));
    assert_eq!(a.get(), 1);
    assert_eq!(b.get(), 0);
    assert_eq!(c.get(), 0);
}

#[test]
fn menu_runs_the_selected_action() {
    let a = Rc::new(Cell::new(0));
    let b = Rc::new(Cell::new(0));
    let c = Rc::new(Cell::new(0));
    let mut display = DisplayManager::new();
    let mut menu = three_item_menu(&a, &b, &c);
    menu.select_next(&mut display);
    menu.activate_selected();
    menu.activate_selected();
    menu.select_prev(&mut display);
    menu.select_prev(&mut display);
    assert_eq!(menu.get_selected_index(), 2);
    menu.activate_selected();
    assert_eq!((a.get(), b.get(), c.get()), (0, 2, 1));
}

#[test]
fn menu_without_items_does_nothing() {
    let mut display = DisplayManager::new();
    let mut menu: MenuScreen<Callback> = MenuScreen::new("Empty");
    assert_eq!(menu.item_count(), 0);
    menu.select_next(&mut display);
    menu.select_prev(&mut display);
    menu.activate_selected();
    assert_eq!(menu.get_selected_index(), 0);
    assert_eq!(display.pending(), 0);
    assert!(menu.handle_event(&Event::ButtonPressed(33), 0, &mut display));
    assert!(menu.handle_event(&Event::ButtonPressed(32), 0, &mut display));
    assert_eq!(display.pending(), 0);
    assert_eq!(menu.draw(&mut display), Ok(()));
    assert_eq!(
        display.take_commands(),
        vec![
            DrawCommand::Clear,
            text("Empty", 5, 5, TextSize::Normal),
            rect(5, 50, 40, 15, false),
            text("Back", 13, 52, TextSize::Normal),
            DrawCommand::Flush,
        ]
    );
}

#[test]
fn menu_outlines_the_selected_item() {
    let a = Rc::new(Cell::new(0));
    let mut display = DisplayManager::new();
    let mut menu = three_item_menu(&a, &a, &a);
    assert_eq!(menu.item_count(), 3);
    assert_eq!(menu.draw(&mut display), Ok(()));
    assert_eq!(
        display.take_commands(),
        vec![
            DrawCommand::Clear,
            text("Menu", 5, 5, TextSize::Normal),
            rect(5, 18, 118, 19, false),
            rect(10, 20, 108, 15, false),
            text("A", 61, 22, TextSize::Normal),
            rect(10, 38, 108, 15, false),
            text("B", 61, 40, TextSize::Normal),
            rect(10, 56, 108, 15, false),
            text("C", 61, 58, TextSize::Normal),
            rect(5, 50, 40, 15, false),
            text("Back", 13, 52, TextSize::Normal),
            DrawCommand::Flush,
        ]
    );
    menu.select_next(&mut display);
    let frame = display.take_commands();
    assert_eq!(frame.len(), 12);
    assert_eq!(frame[2], rect(10, 20, 108, 15, false));
    assert_eq!(frame[4], rect(5, 36, 118, 19, false));
    assert_eq!(frame[5], rect(10, 38, 108, 15, false));
}

#[test]
fn menu_ignores_other_events() {
    let a = Rc::new(Cell::new(0));
    let mut display = DisplayManager::new();
    let mut menu = three_item_menu(&a, &a, &a);
    for event in [
        Event::ButtonReleased(32),
        Event::ButtonReleased(33),
        Event::ButtonPressed(26),
        Event::SystemTick,
    ] {
        assert!(!menu.handle_event(&event, 0, &mut display));
    }
    assert_eq!(menu.get_selected_index(), 0);
    assert_eq!(a.get(), 0);
    assert_eq!(display.pending(), 0);
}

#[test]
fn menu_item_holds_a_button_without_callback() {
    let runs = Rc::new(Cell::new(0));
    let item: MenuItem<Callback> = MenuItem::new("Item", 10, 20, 108, counting(&runs));
    let _ = item;
    assert_eq!(runs.get(), 0);
}

#[test]
fn draw_failure_is_not_fatal() {
    let first = Rc::new(Cell::new(0));
    let second = Rc::new(Cell::new(0));
    let mut queue = EventQueue::new();
    let mut display = DisplayManager::new();
    let mut manager: ScreenManager<Callback> = ScreenManager::new();
    manager.add_screen(AnyScreen::Default(two_button_screen(&first, &second)));
    display.set_online(false);
    queue.push(Event::ButtonPressed(26));
    assert_eq!(manager.process_events(&mut queue, 0, &mut display), Ok(()));
    assert!(queue.is_empty());
    assert_eq!(display.pending(), 0);
    display.set_online(true);
    queue.push(Event::ButtonReleased(26));
    assert_eq!(manager.process_events(&mut queue, 10, &mut display), Ok(()));
    assert!(queue.is_empty());
    assert_eq!(first.get(), 1);
    let frame = display.take_commands();
    assert_eq!(frame.len(), 9);
    assert_eq!(frame[0], DrawCommand::Clear);
    assert_eq!(frame[8], DrawCommand::Flush);
}

#[test]
fn manager_switches_to_a_screen_and_draws_it() {
    let mut display = DisplayManager::new();
    let mut manager: ScreenManager<Callback> = ScreenManager::new();
    assert_eq!(manager.screen_count(), 0);
    assert_eq!(manager.switch_to_screen(0, &mut display), Ok(()));
    assert_eq!(display.pending(), 0);
    manager.add_screen(AnyScreen::Loading(LoadingScreen::new("a", "b", 0)));
    manager.add_screen(AnyScreen::Home(HomeScreen::new()));
    assert_eq!(manager.screen_count(), 2);
    assert_eq!(manager.current_screen_index(), 0);
    assert_eq!(manager.switch_to_screen(1, &mut display), Ok(()));
    assert_eq!(manager.current_screen_index(), 1);
    assert_eq!(display.take_commands().len(), 8);
    assert_eq!(manager.switch_to_screen(2, &mut display), Ok(()));
    assert_eq!(manager.switch_to_screen(usize::MAX, &mut display), Ok(()));
    assert_eq!(manager.current_screen_index(), 1);
    assert_eq!(display.pending(), 0);
    assert_eq!(manager.switch_to_screen(0, &mut display), Ok(()));
    assert_eq!(manager.current_screen_index(), 0);
    assert_eq!(display.take_commands().len(), 5);
}

#[test]
fn manager_reports_a_failed_drawing_on_switch() {
    let mut display = DisplayManager::new();
    display.set_online(false);
    let mut manager: ScreenManager<Callback> = ScreenManager::new();
    manager.add_screen(AnyScreen::Loading(LoadingScreen::new("a", "b", 0)));
    manager.add_screen(AnyScreen::Home(HomeScreen::new()));
    assert_eq!(manager.switch_to_screen(1, &mut display), Err(DisplayError::DrawError));
    assert_eq!(manager.current_screen_index(), 1);
    assert_eq!(manager.switch_to_screen(5, &mut display), Ok(()));
}

#[test]
fn manager_finds_the_active_screen_by_its_kind() {
    let mut manager: ScreenManager<Callback> = ScreenManager::new();
    assert!(manager.get_screen_as_mut::<LoadingScreen>().is_none());
    manager.add_screen(AnyScreen::Loading(LoadingScreen::new("a", "b", 0)));
    manager.add_screen(AnyScreen::Home(HomeScreen::new()));
    manager.add_screen(AnyScreen::Menu(MenuScreen::new("m")));
    manager.add_screen(AnyScreen::Default(DefaultScreen::new()));
    assert!(manager.get_screen_as_mut::<HomeScreen<Callback>>().is_none());
    assert!(manager.get_screen_as_mut::<MenuScreen<Callback>>().is_none());
    assert!(manager.get_screen_as_mut::<DefaultScreen<Callback>>().is_none());
    let loading = manager.get_screen_as_mut::<LoadingScreen>().unwrap();
    loading.set_progress(40);
    loading.set_message("Starting services...");
    let again = manager.get_screen_as_mut::<LoadingScreen>().unwrap();
    assert_eq!(again.get_progress(), 40);
    assert_eq!(again.get_message(), "Starting services...");
    let mut display = DisplayManager::new();
    assert_eq!(manager.switch_to_screen(1, &mut display), Ok(()));
    assert!(manager.get_screen_as_mut::<LoadingScreen>().is_none());
    assert!(manager.get_screen_as_mut::<HomeScreen<Callback>>().is_some());
    assert_eq!(manager.switch_to_screen(2, &mut display), Ok(()));
    assert!(manager.get_screen_as_mut::<MenuScreen<Callback>>().is_some());
    assert_eq!(manager.switch_to_screen(3, &mut display), Ok(()));
    assert!(manager.get_screen_as_mut::<DefaultScreen<Callback>>().is_some());
    assert!(manager.get_screen_as_mut::<MenuScreen<Callback>>().is_none());
}

#[test]
fn manager_hands_every_event_to_the_active_screen() {
    let mut queue = EventQueue::new();
    let mut display = DisplayManager::new();
    let mut manager: ScreenManager<Callback> = ScreenManager::new();
    manager.add_screen(AnyScreen::Loading(LoadingScreen::new("a", "b", 0)));
    manager.add_screen(AnyScreen::Home(HomeScreen::new()));
    assert_eq!(manager.process_events(&mut queue, 0, &mut display), Ok(()));
    assert_eq!(manager.switch_to_screen(1, &mut display), Ok(()));
    display.take_commands();
    queue.push(Event::ButtonPressed(26));
    queue.push(Event::SystemTick);
    queue.push(Event::ButtonReleased(26));
    queue.push(Event::ButtonPressed(26));
    queue.push(Event::ButtonPressed(25));
    assert_eq!(manager.process_events(&mut queue, 500, &mut display), Ok(()));
    assert!(queue.is_empty());
    let home = manager.get_screen_as_mut::<HomeScreen<Callback>>().unwrap();
    assert_eq!(home.get_status(), "Count: 2");
    assert_eq!(manager.switch_to_screen(0, &mut display), Ok(()));
    let loading = manager.get_screen_as_mut::<LoadingScreen>().unwrap();
    assert_eq!(loading.get_progress(), 0);
}

#[test]
fn manager_of_no_screen_has_nothing_to_do() {
    let mut queue = EventQueue::new();
    let mut display = DisplayManager::new();
    let mut manager: ScreenManager<Callback> = ScreenManager::new();
    assert_eq!(manager.process_events(&mut queue, 0, &mut display), Ok(()));
    assert_eq!(manager.current_screen_index(), 0);
    assert_eq!(display.pending(), 0);
}

#[test]
fn boot_messages_follow_the_progress() {
    assert_eq!(boot_message(0), "Initialising hardware...");
    assert_eq!(boot_message(20), "Initialising hardware...");
    assert_eq!(boot_message(21), "Loading drivers...");
    assert_eq!(boot_message(40), "Loading drivers...");
    assert_eq!(boot_message(41), "Starting services...");
    assert_eq!(boot_message(60), "Starting services...");
    assert_eq!(boot_message(61), "Initialising UI...");
    assert_eq!(boot_message(80), "Initialising UI...");
    assert_eq!(boot_message(81), "Almost ready...");
    assert_eq!(boot_message(100), "Almost ready...");
    assert_eq!(boot_message(255), "Almost ready...");
}

#[test]
fn boot_step_sets_message_and_progress_and_draws() {
    let mut display = DisplayManager::new();
    let mut screen = LoadingScreen::new("visionHubOS", "Booting...", 0);
    for progress in 0..=100u8 {
        assert_eq!(screen.show_boot_step(progress, &mut display), Ok(()));
        assert_eq!(screen.get_progress(), progress);
        assert_eq!(screen.get_message(), boot_message(progress));
        let frame = display.take_commands();
        assert_eq!(frame[0], DrawCommand::Clear);
        assert_eq!(frame[2], text(boot_message(progress), 10, 30, TextSize::Small));
        assert_eq!(frame[frame.len() - 1], DrawCommand::Flush);
    }
    assert!(screen.is_complete());
    display.set_online(false);
    assert_eq!(screen.show_boot_step(30, &mut display), Err(DisplayError::DrawError));
    assert_eq!(screen.get_progress(), 30);
    assert_eq!(screen.get_message(), "Loading drivers...");
}
