use visionhub_os::drivers::display::{DisplayError, DisplayManager, DrawCommand, TextSize};
use visionhub_os::text::decimal;

fn outline(x: i32, y: i32, width: u32) -> DrawCommand {
    DrawCommand::Rectangle { x, y, width, height: 8, filled: false }
}

fn fill(x: i32, y: i32, width: u32) -> DrawCommand {
    DrawCommand::Rectangle { x, y, width, height: 6, filled: true }
}

fn bar(x: i32, y: i32, width: u32, progress: u8) -> Vec<DrawCommand> {
    let mut display = DisplayManager::new();
    assert_eq!(display.draw_progress_bar(x, y, width, progress), Ok(()));
    display.take_commands()
}

#[test]
fn display_records_primitives_in_order() {
    let mut display = DisplayManager::new();
    assert!(display.online());
    assert_eq!(display.pending(), 0);
    assert_eq!(display.clear(), Ok(()));
    assert_eq!(display.draw_text("Hi", 3, 4, TextSize::Large), Ok(()));
    assert_eq!(display.draw_rectangle(-5, 6, 7, 8, true), Ok(()));
    assert_eq!(display.flush(), Ok(()));
    assert_eq!(display.pending(), 4);
    assert_eq!(
        display.take_commands(),
        vec![
            DrawCommand::Clear,
            DrawCommand::Text { text: String::from("Hi"), x: 3, y: 4, size: TextSize::Large },
            DrawCommand::Rectangle { x: -5, y: 6, width: 7, height: 8, filled: true },
            DrawCommand::Flush,
        ]
    );
    assert_eq!(display.pending(), 0);
    assert_eq!(display.take_commands(), vec![]);
}

#[test]
fn display_that_does_not_answer_refuses_every_primitive() {
    let mut display = DisplayManager::new();
    assert_eq!(display.clear(), Ok(()));
    display.set_online(false);
    assert!(!display.online());
    assert_eq!(display.clear(), Err(DisplayError::DrawError));
    assert_eq!(display.flush(), Err(DisplayError::DrawError));
    assert_eq!(display.draw_text("x", 0, 0, TextSize::Small), Err(DisplayError::DrawError));
    assert_eq!(display.draw_rectangle(0, 0, 1, 1, false), Err(DisplayError::DrawError));
    assert_eq!(display.draw_progress_bar(0, 0, 10, 50), Err(DisplayError::DrawError));
    assert_eq!(display.take_commands(), vec![DrawCommand::Clear]);
    display.set_online(true);
    assert_eq!(display.flush(), Ok(()));
    assert_eq!(display.take_commands(), vec![DrawCommand::Flush]);
}

#[test]
fn progress_bar_draws_outline_and_fill() {
    assert_eq!(bar(10, 45, 108, 50), vec![outline(10, 45, 108), fill(11, 46, 52)]);
    assert_eq!(bar(0, 0, 200, 25), vec![outline(0, 0, 200), fill(1, 1, 48)]);
    assert_eq!(bar(-3, -4, 108, 99), vec![outline(-3, -4, 108), fill(-2, -3, 104)]);
}

#[test]
fn progress_bar_over_hundred_is_hundred() {
    let full = bar(10, 45, 108, 100);
    assert_eq!(full, vec![outline(10, 45, 108), fill(11, 46, 106)]);
    for progress in 100..=255u8 {
        assert_eq!(bar(10, 45, 108, progress), full);
    }
}

#[test]
fn progress_bar_at_zero_is_the_outline_alone() {
    assert_eq!(bar(10, 45, 108, 0), vec![outline(10, 45, 108)]);
    assert_eq!(bar(10, 45, 0, 100), vec![outline(10, 45, 0)]);
    assert_eq!(bar(i32::MAX, i32::MAX, 108, 0), vec![outline(i32::MAX, i32::MAX, 108)]);
}

#[test]
fn progress_bar_fill_is_two_narrower_and_never_negative() {
    assert_eq!(bar(0, 0, 3, 1), vec![outline(0, 0, 3)]);
    assert_eq!(bar(0, 0, 99, 1), vec![outline(0, 0, 99)]);
    assert_eq!(bar(0, 0, 100, 1), vec![outline(0, 0, 100), fill(1, 1, 0)]);
    assert_eq!(bar(0, 0, 200, 1), vec![outline(0, 0, 200), fill(1, 1, 0)]);
    assert_eq!(bar(0, 0, 300, 1), vec![outline(0, 0, 300), fill(1, 1, 1)]);
    assert_eq!(bar(0, 0, 399, 1), vec![outline(0, 0, 399), fill(1, 1, 1)]);
    assert_eq!(bar(0, 0, 400, 1), vec![outline(0, 0, 400), fill(1, 1, 2)]);
    assert_eq!(bar(0, 0, 1, 100), vec![outline(0, 0, 1), fill(1, 1, 0)]);
}

#[test]
fn progress_bar_takes_the_widest_bar() {
    assert_eq!(
        bar(0, 0, u32::MAX, 100),
        vec![outline(0, 0, u32::MAX), fill(1, 1, u32::MAX - 2)]
    );
    assert_eq!(
        bar(0, 0, u32::MAX, 99),
        vec![outline(0, 0, u32::MAX), fill(1, 1, 4_252_017_620)]
    );
}

#[test]
fn text_sizes_have_fixed_cells() {
    assert_eq!(TextSize::Small.char_width(), 5);
    assert_eq!(TextSize::Small.line_height(), 8);
    assert_eq!(TextSize::Normal.char_width(), 6);
    assert_eq!(TextSize::Normal.line_height(), 10);
    assert_eq!(TextSize::Large.char_width(), 8);
    assert_eq!(TextSize::Large.line_height(), 16);
}

#[test]
fn display_errors_have_messages() {
    assert_eq!(DisplayError::DriverError.message(), "Display driver initialisation error");
    assert_eq!(DisplayError::DrawError.message(), "Error drawing to display");
    assert_eq!(DisplayError::I2CError(263).message(), "I2C Communication error: 263");
    assert_eq!(DisplayError::I2CError(0).message(), "I2C Communication error: 0");
    assert_eq!(DisplayError::I2CError(-1).message(), "I2C Communication error: -1");
    assert_eq!(
        DisplayError::I2CError(i32::MIN).message(),
        "I2C Communication error: -2147483648"
    );
    assert_eq!(
        DisplayError::I2CError(i32::MAX).message(),
        "I2C Communication error: 2147483647"
    );
}

#[test]
fn interface_errors_count_as_refused_primitives() {
    assert_eq!(
        DisplayError::from(display_interface::DisplayError::BusWriteError),
        DisplayError::DrawError
    );
    assert_eq!(
        DisplayError::from(display_interface::DisplayError::OutOfBoundsError),
        DisplayError::DrawError
    );
    let converted: DisplayError = display_interface::DisplayError::DCError.into();
    assert_eq!(converted, DisplayError::DrawError);
}

#[test]
fn decimal_text_of_numbers() {
    assert_eq!(decimal(0), "0");
    assert_eq!(decimal(7), "7");
    assert_eq!(decimal(10), "10");
    assert_eq!(decimal(109), "109");
    assert_eq!(decimal(1_000_000), "1000000");
    assert_eq!(decimal(u32::MAX), "4294967295");
    for n in 0..2000u32 {
        assert_eq!(decimal(n), n.to_string());
    }
}
