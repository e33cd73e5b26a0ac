//! The home screen: a title, a status line and two buttons. The status line
//! counts the presses of the select button.

use crate::drivers::display::{DisplayError, DisplayManager, DrawOp, TextSize};
use crate::system::events::Event;
use crate::text::{decimal, decimal_digits, lemma_decimal_digits_u32};
use crate::ui::framework::{
    lemma_ascii_text_len, text_width, Button, Label, Position, Rectangle, Screen, Widget,
};
use vstd::prelude::*;
use vstd::string::*;

verus! {

/// The pin of the select button that the home screen follows.
pub const HOME_SELECT_PIN: u32 = 26;

/// What the home screen shows and remembers.
pub struct HomeModel<F> {
    pub title: Label,
    pub status: Seq<char>,
    pub menu_button: Button<F>,
    pub settings_button: Button<F>,
    pub counter: u32,
}

/// The status line of a counter at `counter`.
pub open spec fn count_text(counter: u32) -> Seq<char> {
    "Count: "@ + decimal_digits(counter as nat)
}

/// The counter after one more press; after the largest number it starts
/// over at zero.
pub open spec fn next_counter(counter: u32) -> u32 {
    if counter == u32::MAX {
        0
    } else {
        (counter + 1) as u32
    }
}

/// One frame of the home screen: blank, title, status line, the two buttons,
/// show.
pub open spec fn home_frame<F: Fn()>(model: HomeModel<F>) -> Seq<DrawOp> {
    seq![DrawOp::Clear] + model.title.draw_ops() + seq![
        DrawOp::Text { text: model.status, x: 5, y: 20, size: TextSize::Small },
    ] + model.menu_button.draw_ops() + model.settings_button.draw_ops() + seq![DrawOp::Flush]
}

/// Whether `event` is a press of the select button.
pub open spec fn select_pressed(event: Event) -> bool {
    event == Event::ButtonPressed(HOME_SELECT_PIN)
}

/// Whether `event` is a release of the select button.
pub open spec fn select_released(event: Event) -> bool {
    event == Event::ButtonReleased(HOME_SELECT_PIN)
}

/// The home screen after `event`: a press of the select button reaches the
/// menu button and counts, a release reaches the menu button, and nothing
/// else changes anything.
pub open spec fn home_after_event<F: Fn()>(model: HomeModel<F>, event: Event) -> HomeModel<F> {
    if select_pressed(event) {
        HomeModel {
            title: model.title,
            status: count_text(next_counter(model.counter)),
            menu_button: model.menu_button.after_event(event),
            settings_button: model.settings_button,
            counter: next_counter(model.counter),
        }
    } else if select_released(event) {
        HomeModel {
            title: model.title,
            status: model.status,
            menu_button: model.menu_button.after_event(event),
            settings_button: model.settings_button,
            counter: model.counter,
        }
    } else {
        model
    }
}

/// The status line of any counter is ASCII text of at most 17 characters.
pub proof fn lemma_count_text(counter: u32)
    ensures
        vstd::utf8::is_ascii_chars(count_text(counter)),
        8 <= count_text(counter).len() <= 17,
        text_width(count_text(counter), TextSize::Small) <= 85,
{
    reveal_strlit("Count: ");
    lemma_decimal_digits_u32(counter);
    lemma_ascii_text_len(count_text(counter));
}

/// The home screen.
pub struct HomeScreen<F> {
    title: Label,
    status: Label,
    menu_button: Button<F>,
    settings_button: Button<F>,
    counter: u32,
}

impl<F: Fn()> HomeScreen<F> {
    /// What the home screen shows and remembers.
    pub closed spec fn home_model(&self) -> HomeModel<F> {
        HomeModel {
            title: self.title,
            status: self.status.text(),
            menu_button: self.menu_button,
            settings_button: self.settings_button,
            counter: self.counter,
        }
    }

    /// The parts are well-formed and the status line stands where it belongs.
    pub closed spec fn home_wf(&self) -> bool {
        &&& self.title.label_wf()
        &&& self.status.label_wf()
        &&& self.status.position() == (Position { x: 5, y: 20 })
        &&& self.status.size() == TextSize::Small
        &&& self.menu_button.button_wf()
        &&& self.settings_button.button_wf()
    }

    /// The home screen as it starts: the counter at zero, the status line
    /// `System Ready`, both buttons released and without a callback.
    pub fn new() -> (screen: Self)
        ensures
            screen.wf(),
            screen.home_model().title.text() == "visionHub OS Home"@,
            screen.home_model().title.position() == (Position { x: 5, y: 5 }),
            screen.home_model().title.size() == TextSize::Normal,
            screen.home_model().status == "System Ready"@,
            screen.home_model().menu_button.label().text() == "Menu"@,
            screen.home_model().menu_button.button_bounds() == (Rectangle {
                x: 5,
                y: 35,
                width: 50,
                height: 20,
            }),
            !screen.home_model().menu_button.pressed(),
            screen.home_model().menu_button.on_click() is None,
            screen.home_model().menu_button.select_pin() == HOME_SELECT_PIN,
            screen.home_model().settings_button.label().text() == "Settings"@,
            screen.home_model().settings_button.button_bounds() == (Rectangle {
                x: 70,
                y: 35,
                width: 50,
                height: 20,
            }),
            !screen.home_model().settings_button.pressed(),
            screen.home_model().settings_button.on_click() is None,
            screen.home_model().counter == 0,
    {
        proof {
            reveal_strlit("visionHub OS Home");
            reveal_strlit("System Ready");
            reveal_strlit("Menu");
            reveal_strlit("Settings");
            lemma_ascii_text_len("visionHub OS Home"@);
            lemma_ascii_text_len("System Ready"@);
            lemma_ascii_text_len("Menu"@);
            lemma_ascii_text_len("Settings"@);
        }
        HomeScreen {
            title: Label::new("visionHub OS Home", 5, 5, TextSize::Normal),
            status: Label::new("System Ready", 5, 20, TextSize::Small),
            menu_button: Button::new("Menu", 5, 35, 50, 20),
            settings_button: Button::new("Settings", 70, 35, 50, 20),
            counter: 0,
        }
    }

    /// Replaces the status line.
    pub fn update_status(&mut self, status: &str)
        requires
            old(self).wf(),
            text_width(status@, TextSize::Small) <= u32::MAX,
        ensures
            final(self).wf(),
            final(self).home_model() == (HomeModel {
                status: status@,
                ..old(self).home_model()
            }),
    {
        self.status.set_text(status);
    }

    /// Counts one press and shows the count in the status line.
    pub fn increment_counter(&mut self)
        requires
            old(self).wf(),
        ensures
            final(self).wf(),
            final(self).home_model() == (HomeModel {
                status: count_text(next_counter(old(self).home_model().counter)),
                counter: next_counter(old(self).home_model().counter),
                ..old(self).home_model()
            }),
    {
        self.counter = if self.counter == u32::MAX {
            0
        } else {
            self.counter + 1
        };
        let mut status = String::from_str("Count: ");
        let digits = decimal(self.counter);
        status.append(digits.as_str());
        proof {
            lemma_count_text(self.counter);
        }
        self.update_status(status.as_str());
    }

    /// The number of presses counted.
    pub fn get_counter(&self) -> (counter: u32)
        ensures
            counter == self.home_model().counter,
    {
        self.counter
    }

    /// The status line.
    pub fn get_status(&self) -> (status: &str)
        ensures
            status@ == self.home_model().status,
    {
        self.status.get_text()
    }
}

impl<F: Fn()> Screen for HomeScreen<F> {
    type Model = HomeModel<F>;

    open spec fn model(&self) -> HomeModel<F> {
        self.home_model()
    }

    open spec fn wf(&self) -> bool {
        self.home_wf()
    }

    open spec fn model_draw_ops(model: HomeModel<F>) -> Seq<DrawOp> {
        home_frame(model)
    }

    open spec fn model_consumes(model: HomeModel<F>, event: Event) -> bool {
        select_pressed(event) || select_released(event)
    }

    open spec fn model_after_event(
        model: HomeModel<F>,
        event: Event,
        now: u64,
        online: bool,
    ) -> HomeModel<F> {
        home_after_event(model, event)
    }

    open spec fn model_event_ops(model: HomeModel<F>, event: Event, now: u64) -> Seq<DrawOp> {
        Seq::empty()
    }

    open spec fn model_callbacks_ran(model: HomeModel<F>, event: Event) -> bool {
        select_pressed(event) || select_released(event) ==> model.menu_button.callbacks_ran(event)
    }

    fn draw(&self, display: &mut DisplayManager) -> (result: Result<(), DisplayError>) {
        display.clear()?;
        self.title.draw(display)?;
        self.status.draw(display)?;
        self.menu_button.draw(display)?;
        self.settings_button.draw(display)?;
        let result = display.flush();
        assert(display@ =~= old(display)@ + home_frame(self.home_model()));
        result
    }

    fn handle_event(&mut self, event: &Event, now: u64, display: &mut DisplayManager) -> (consumed:
        bool) {
        let press = match event {
            Event::ButtonPressed(pin) => *pin == HOME_SELECT_PIN,
            _ => false,
        };
        let release = match event {
            Event::ButtonReleased(pin) => *pin == HOME_SELECT_PIN,
            _ => false,
        };
        if press {
            self.menu_button.handle_event(event);
            self.increment_counter();
            true
        } else if release {
            self.menu_button.handle_event(event);
            true
        } else {
            false
        }
    }
}

} // verus!
