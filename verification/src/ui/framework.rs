//! Widgets, the default screen and the screen manager.
//!
//! A widget is a rectangle on the panel that draws itself and may consume
//! events. A screen holds widgets or is composed by hand; the manager routes
//! the queued events to the active screen.

use crate::drivers::display::{
    char_width, issued, line_height, progress_bar_ops, DisplayError, DisplayManager, DrawOp,
    TextSize, PROGRESS_BAR_HEIGHT,
};
use crate::system::events::{Event, EventQueue};
use crate::ui::screens::home::{HomeModel, HomeScreen};
use crate::ui::screens::loading::{LoadingModel, LoadingScreen};
use crate::ui::screens::menu::{MenuModel, MenuScreen};
use vstd::prelude::*;
use vstd::string::*;

verus! {

/// The pin of the select button where nothing else is configured.
pub const DEFAULT_SELECT_PIN: u32 = 26;

/// A rectangle in pixels; `(x, y)` is its top left corner.
#[derive(Clone, Copy, Debug, PartialEq, Eq)]
pub struct Rectangle {
    pub x: i32,
    pub y: i32,
    pub width: u32,
    pub height: u32,
}

/// A point in pixels, from the top left corner of the panel.
#[derive(Clone, Copy, Debug, PartialEq, Eq)]
pub struct Position {
    pub x: i32,
    pub y: i32,
}

/// Length of `text` as it is measured: the number of bytes of its UTF-8
/// form, which for ASCII text is the number of its characters.
pub open spec fn text_len(text: Seq<char>) -> nat {
    vstd::utf8::encode_utf8(text).len()
}

/// ASCII text is as long as it has characters.
pub proof fn lemma_ascii_text_len(text: Seq<char>)
    requires
        vstd::utf8::is_ascii_chars(text),
    ensures
        text_len(text) == text.len(),
{
    vstd::utf8::is_ascii_chars_encode_utf8(text);
}

/// Width in pixels of `text` set in `size`.
pub open spec fn text_width(text: Seq<char>, size: TextSize) -> int {
    text_len(text) * char_width(size)
}

/// A bounded element of a screen that draws itself and is offered events.
pub trait Widget: Sized {
    /// What the widget keeps true of itself.
    spec fn wf(&self) -> bool;

    /// The primitives of one drawing of the widget, in order.
    spec fn draw_ops(&self) -> Seq<DrawOp>;

    /// The rectangle that the widget takes up.
    spec fn bounds(&self) -> Rectangle;

    /// Whether the widget consumes `event`.
    spec fn consumes(&self, event: Event) -> bool;

    /// The widget after it was offered `event`.
    spec fn after_event(&self, event: Event) -> Self;

    /// What is known of the callbacks once the widget was offered `event`:
    /// each callback that the event calls for has run.
    spec fn callbacks_ran(&self, event: Event) -> bool;

    /// Draws the widget.
    fn draw(&self, display: &mut DisplayManager) -> (result: Result<(), DisplayError>)
        requires
            self.wf(),
        ensures
            issued(*old(display), *final(display), self.draw_ops(), result),
    ;

    /// Offers `event` to the widget and says whether it consumed it. A widget
    /// that does not consume an event stays as it is.
    fn handle_event(&mut self, event: &Event) -> (consumed: bool)
        requires
            old(self).wf(),
        ensures
            final(self).wf(),
            consumed == old(self).consumes(*event),
            *final(self) == old(self).after_event(*event),
            !consumed ==> *final(self) == *old(self),
            old(self).callbacks_ran(*event),
    ;

    /// The rectangle that the widget takes up.
    fn get_bounds(&self) -> (bounds: Rectangle)
        ensures
            bounds == self.bounds(),
    ;
}

/// A line of text.
pub struct Label {
    text: String,
    position: Position,
    size: TextSize,
    bounds: Rectangle,
}

impl Label {
    /// The text.
    pub closed spec fn text(&self) -> Seq<char> {
        self.text@
    }

    /// The top left corner of the text.
    pub closed spec fn position(&self) -> Position {
        self.position
    }

    /// The size of the text.
    pub closed spec fn size(&self) -> TextSize {
        self.size
    }

    /// The rectangle that the text takes up.
    pub closed spec fn label_bounds(&self) -> Rectangle {
        self.bounds
    }

    /// The bounds start at the position, are one line high and as wide as the
    /// text.
    pub open spec fn label_wf(&self) -> bool {
        &&& self.label_bounds().x == self.position().x
        &&& self.label_bounds().y == self.position().y
        &&& self.label_bounds().width == text_width(self.text(), self.size())
        &&& self.label_bounds().height == line_height(self.size())
    }

    /// A label with `text` at `(x, y)`.
    pub fn new(text: &str, x: i32, y: i32, size: TextSize) -> (label: Self)
        requires
            text_width(text@, size) <= u32::MAX,
        ensures
            label.label_wf(),
            label.text() == text@,
            label.position() == (Position { x, y }),
            label.size() == size,
    {
        let length = text.as_bytes().len();
        let cell = size.char_width();
        assert(length * cell == text_width(text@, size)) by (nonlinear_arith)
            requires
                length == text_len(text@),
                cell == char_width(size),
        ;
        let width: u32 = (length as u64 * cell as u64) as u32;
        Label {
            text: String::from_str(text),
            position: Position { x, y },
            size,
            bounds: Rectangle { x, y, width, height: size.line_height() },
        }
    }

    /// Replaces the text. The width follows the new text; the position stays.
    pub fn set_text(&mut self, text: &str)
        requires
            old(self).label_wf(),
            text_width(text@, old(self).size()) <= u32::MAX,
        ensures
            final(self).label_wf(),
            final(self).text() == text@,
            final(self).position() == old(self).position(),
            final(self).size() == old(self).size(),
    {
        let length = text.as_bytes().len();
        let cell = self.size.char_width();
        assert(length * cell == text_width(text@, self.size)) by (nonlinear_arith)
            requires
                length == text_len(text@),
                cell == char_width(self.size),
        ;
        self.text = String::from_str(text);
        self.bounds.width = (length as u64 * cell as u64) as u32;
    }

    /// The text.
    pub fn get_text(&self) -> (text: &str)
        ensures
            text@ == self.text(),
    {
        self.text.as_str()
    }

    /// The top left corner of the text.
    pub fn get_position(&self) -> (position: Position)
        ensures
            position == self.position(),
    {
        self.position
    }

    /// The size of the text.
    pub fn get_size(&self) -> (size: TextSize)
        ensures
            size == self.size(),
    {
        self.size
    }
}

impl Widget for Label {
    open spec fn wf(&self) -> bool {
        self.label_wf()
    }

    open spec fn draw_ops(&self) -> Seq<DrawOp> {
        seq![
            DrawOp::Text {
                text: self.text(),
                x: self.position().x,
                y: self.position().y,
                size: self.size(),
            },
        ]
    }

    open spec fn bounds(&self) -> Rectangle {
        self.label_bounds()
    }

    open spec fn consumes(&self, event: Event) -> bool {
        false
    }

    open spec fn after_event(&self, event: Event) -> Self {
        *self
    }

    open spec fn callbacks_ran(&self, event: Event) -> bool {
        true
    }

    fn draw(&self, display: &mut DisplayManager) -> (result: Result<(), DisplayError>) {
        display.draw_text(self.text.as_str(), self.position.x, self.position.y, self.size)
    }

    fn handle_event(&mut self, event: &Event) -> (consumed: bool) {
        false
    }

    fn get_bounds(&self) -> (bounds: Rectangle) {
        self.bounds
    }
}

/// The width of a label divided by the width of one glyph cell is the length
/// of its text, whatever texts were set before.
pub proof fn lemma_label_metric(label: Label)
    requires
        label.label_wf(),
    ensures
        label.label_bounds().width as int / char_width(label.size()) == text_len(label.text()),
{
    let n = text_len(label.text()) as int;
    let w = char_width(label.size());
    assert((n * w) / w == n) by (nonlinear_arith)
        requires
            w > 0,
    ;
}


/// Where something `inner` pixels long starts when it is centred in the
/// `extent` pixels from `origin`: half the slack from the origin, rounded
/// down.
pub open spec fn centered(origin: i32, extent: u32, inner: int) -> int {
    origin + (extent - inner) / 2
}

/// Whether a button with `text` fits at `(x, y)`: the text can be measured
/// and the corner of the centred text is a coordinate.
pub open spec fn button_fits(text: Seq<char>, x: i32, y: i32, width: u32, height: u32) -> bool {
    &&& text_width(text, TextSize::Normal) <= u32::MAX
    &&& i32::MIN <= centered(x, width, text_width(text, TextSize::Normal)) <= i32::MAX
    &&& i32::MIN <= centered(y, height, line_height(TextSize::Normal)) <= i32::MAX
}

/// `origin` plus half of `extent - inner`, rounded down.
fn centered_origin(origin: i32, extent: u32, inner: u32) -> (start: i32)
    requires
        i32::MIN <= centered(origin, extent, inner as int) <= i32::MAX,
    ensures
        start == centered(origin, extent, inner as int),
{
    let slack: i64 = extent as i64 - inner as i64;
    let half: i64 = if slack >= 0 {
        slack / 2
    } else {
        -((1 - slack) / 2)
    };
    (origin as i64 + half) as i32
}

/// A push button: a rectangle with centred text that follows the select
/// button and may call back when it is released.
pub struct Button<F> {
    label: Label,
    bounds: Rectangle,
    pressed: bool,
    on_click: Option<F>,
    select_pin: u32,
}

impl<F: Fn()> Button<F> {
    /// The text of the button.
    pub closed spec fn label(&self) -> Label {
        self.label
    }

    /// The rectangle of the button.
    pub closed spec fn button_bounds(&self) -> Rectangle {
        self.bounds
    }

    /// Whether the button is held down.
    pub closed spec fn pressed(&self) -> bool {
        self.pressed
    }

    /// The callback, if one is set.
    pub closed spec fn on_click(&self) -> Option<F> {
        self.on_click
    }

    /// The pin of the button that presses this one.
    pub closed spec fn select_pin(&self) -> u32 {
        self.select_pin
    }

    /// The button as it is when `pressed` is all that changed.
    pub closed spec fn with_pressed(&self, pressed: bool) -> Self {
        Button {
            label: self.label,
            bounds: self.bounds,
            pressed,
            on_click: self.on_click,
            select_pin: self.select_pin,
        }
    }

    /// The text is of normal size and centred in the rectangle, and the
    /// callback, if set, may be called.
    pub open spec fn button_wf(&self) -> bool {
        &&& self.label().label_wf()
        &&& self.label().size() == TextSize::Normal
        &&& self.label().position().x == centered(
            self.button_bounds().x,
            self.button_bounds().width,
            text_width(self.label().text(), TextSize::Normal),
        )
        &&& self.label().position().y == centered(
            self.button_bounds().y,
            self.button_bounds().height,
            line_height(TextSize::Normal),
        )
        &&& self.on_click() is Some ==> call_requires(self.on_click()->0, ())
    }

    /// Changing `pressed` changes nothing else.
    pub proof fn lemma_with_pressed(&self, pressed: bool)
        ensures
            self.with_pressed(pressed).pressed() == pressed,
            self.with_pressed(pressed).label() == self.label(),
            self.with_pressed(pressed).button_bounds() == self.button_bounds(),
            self.with_pressed(pressed).on_click() == self.on_click(),
            self.with_pressed(pressed).select_pin() == self.select_pin(),
            self.with_pressed(self.pressed()) == *self,
    {
    }

    /// A button with `text`, released, without a callback, that follows the
    /// default select pin.
    pub fn new(text: &str, x: i32, y: i32, width: u32, height: u32) -> (button: Self)
        requires
            button_fits(text@, x, y, width, height),
        ensures
            button.button_wf(),
            button.label().text() == text@,
            button.button_bounds() == (Rectangle { x, y, width, height }),
            !button.pressed(),
            button.on_click() is None,
            button.select_pin() == DEFAULT_SELECT_PIN,
    {
        let length = text.as_bytes().len();
        assert(length * 6 == text_width(text@, TextSize::Normal));
        let text_pixels: u32 = (length as u64 * 6) as u32;
        let label_x = centered_origin(x, width, text_pixels);
        let label_y = centered_origin(y, height, 10);
        Button {
            label: Label::new(text, label_x, label_y, TextSize::Normal),
            bounds: Rectangle { x, y, width, height },
            pressed: false,
            on_click: None,
            select_pin: DEFAULT_SELECT_PIN,
        }
    }

    /// Sets the callback that a release of the button calls.
    pub fn set_on_click(&mut self, callback: F)
        requires
            old(self).button_wf(),
            call_requires(callback, ()),
        ensures
            final(self).button_wf(),
            final(self).on_click() == Some(callback),
            final(self).label() == old(self).label(),
            final(self).button_bounds() == old(self).button_bounds(),
            final(self).pressed() == old(self).pressed(),
            final(self).select_pin() == old(self).select_pin(),
    {
        self.on_click = Some(callback);
    }

    /// Sets the pin of the button that presses this one.
    pub fn set_select_pin(&mut self, pin: u32)
        requires
            old(self).button_wf(),
        ensures
            final(self).button_wf(),
            final(self).select_pin() == pin,
            final(self).label() == old(self).label(),
            final(self).button_bounds() == old(self).button_bounds(),
            final(self).pressed() == old(self).pressed(),
            final(self).on_click() == old(self).on_click(),
    {
        self.select_pin = pin;
    }

    /// Whether the button is held down.
    pub fn is_pressed(&self) -> (pressed: bool)
        ensures
            pressed == self.pressed(),
    {
        self.pressed
    }

    /// The text of the button.
    pub fn get_text(&self) -> (text: &str)
        ensures
            text@ == self.label().text(),
    {
        self.label.get_text()
    }
}

impl<F: Fn()> Widget for Button<F> {
    open spec fn wf(&self) -> bool {
        self.button_wf()
    }

    open spec fn draw_ops(&self) -> Seq<DrawOp> {
        seq![
            DrawOp::Rectangle {
                x: self.button_bounds().x,
                y: self.button_bounds().y,
                width: self.button_bounds().width,
                height: self.button_bounds().height,
                filled: self.pressed(),
            },
        ] + self.label().draw_ops()
    }

    open spec fn bounds(&self) -> Rectangle {
        self.button_bounds()
    }

    open spec fn consumes(&self, event: Event) -> bool {
        event == Event::ButtonPressed(self.select_pin()) || event == Event::ButtonReleased(
            self.select_pin(),
        )
    }

    open spec fn after_event(&self, event: Event) -> Self {
        if event == Event::ButtonPressed(self.select_pin()) {
            self.with_pressed(true)
        } else if event == Event::ButtonReleased(self.select_pin()) {
            self.with_pressed(false)
        } else {
            *self
        }
    }

    open spec fn callbacks_ran(&self, event: Event) -> bool {
        event == Event::ButtonReleased(self.select_pin()) && self.on_click() is Some
            ==> call_ensures(self.on_click()->0, (), ())
    }

    fn draw(&self, display: &mut DisplayManager) -> (result: Result<(), DisplayError>) {
        display.draw_rectangle(
            self.bounds.x,
            self.bounds.y,
            self.bounds.width,
            self.bounds.height,
            self.pressed,
        )?;
        let result = self.label.draw(display);
        assert(display@ =~= old(display)@ + self.draw_ops());
        result
    }

    fn handle_event(&mut self, event: &Event) -> (consumed: bool) {
        let press = match event {
            Event::ButtonPressed(pin) => *pin == self.select_pin,
            _ => false,
        };
        let release = match event {
            Event::ButtonReleased(pin) => *pin == self.select_pin,
            _ => false,
        };
        if press {
            self.pressed = true;
            true
        } else if release {
            self.pressed = false;
            match &self.on_click {
                Some(callback) => {
                    callback();
                },
                None => {},
            }
            true
        } else {
            false
        }
    }

    fn get_bounds(&self) -> (bounds: Rectangle) {
        self.bounds
    }
}


/// Whether a progress bar fits at `(x, y)`: unless it has no width, its
/// filled part starts one pixel in, which must still be a coordinate.
pub open spec fn progress_bar_placed(x: i32, y: i32, width: u32) -> bool {
    width > 0 ==> x < i32::MAX && y < i32::MAX
}

/// `progress`, or 100 where it is more.
pub open spec fn clamped_progress(progress: u8) -> u8 {
    if progress >= 100 {
        100
    } else {
        progress
    }
}

/// A horizontal bar, eight pixels high, filled to a percentage.
pub struct ProgressBar {
    bounds: Rectangle,
    progress: u8,
}

impl ProgressBar {
    /// The rectangle of the bar.
    pub closed spec fn bar_bounds(&self) -> Rectangle {
        self.bounds
    }

    /// The percentage to which the bar is filled.
    pub closed spec fn progress(&self) -> u8 {
        self.progress
    }

    /// The bar as it is when filled to `progress` percent, which is all that
    /// changes.
    pub closed spec fn with_progress(&self, progress: u8) -> Self {
        ProgressBar { bounds: self.bounds, progress }
    }

    /// Filling the bar changes its percentage and nothing else.
    pub proof fn lemma_with_progress(&self, progress: u8)
        ensures
            self.with_progress(progress).progress() == progress,
            self.with_progress(progress).bar_bounds() == self.bar_bounds(),
            self.with_progress(self.progress()) == *self,
    {
    }

    /// The bar is eight pixels high, filled to at most 100 percent, and fits
    /// where it is.
    pub open spec fn bar_wf(&self) -> bool {
        &&& self.progress() <= 100
        &&& self.bar_bounds().height == PROGRESS_BAR_HEIGHT
        &&& progress_bar_placed(self.bar_bounds().x, self.bar_bounds().y, self.bar_bounds().width)
    }

    /// A bar `width` pixels wide at `(x, y)`, filled to `progress` percent,
    /// at most 100.
    pub fn new(x: i32, y: i32, width: u32, progress: u8) -> (bar: Self)
        requires
            progress_bar_placed(x, y, width),
        ensures
            bar.bar_wf(),
            bar.bar_bounds() == (Rectangle { x, y, width, height: PROGRESS_BAR_HEIGHT }),
            bar.progress() == clamped_progress(progress),
    {
        ProgressBar {
            bounds: Rectangle { x, y, width, height: PROGRESS_BAR_HEIGHT },
            progress: if progress >= 100 {
                100
            } else {
                progress
            },
        }
    }

    /// Fills the bar to `progress` percent, at most 100.
    pub fn set_progress(&mut self, progress: u8)
        requires
            old(self).bar_wf(),
        ensures
            final(self).bar_wf(),
            *final(self) == old(self).with_progress(clamped_progress(progress)),
            final(self).bar_bounds() == old(self).bar_bounds(),
            final(self).progress() == clamped_progress(progress),
    {
        self.progress = if progress >= 100 {
            100
        } else {
            progress
        };
    }

    /// The percentage to which the bar is filled.
    pub fn get_progress(&self) -> (progress: u8)
        ensures
            progress == self.progress(),
    {
        self.progress
    }
}

impl Widget for ProgressBar {
    open spec fn wf(&self) -> bool {
        self.bar_wf()
    }

    open spec fn draw_ops(&self) -> Seq<DrawOp> {
        progress_bar_ops(
            self.bar_bounds().x,
            self.bar_bounds().y,
            self.bar_bounds().width,
            self.progress(),
        )
    }

    open spec fn bounds(&self) -> Rectangle {
        self.bar_bounds()
    }

    open spec fn consumes(&self, event: Event) -> bool {
        false
    }

    open spec fn after_event(&self, event: Event) -> Self {
        *self
    }

    open spec fn callbacks_ran(&self, event: Event) -> bool {
        true
    }

    fn draw(&self, display: &mut DisplayManager) -> (result: Result<(), DisplayError>) {
        proof {
            if self.bounds.width == 0 {
                assert(self.bounds.width * self.progress / 100 == 0) by (nonlinear_arith)
                    requires
                        self.bounds.width == 0,
                ;
            }
        }
        display.draw_progress_bar(self.bounds.x, self.bounds.y, self.bounds.width, self.progress)
    }

    fn handle_event(&mut self, event: &Event) -> (consumed: bool) {
        false
    }

    fn get_bounds(&self) -> (bounds: Rectangle) {
        self.bounds
    }
}

/// One of the widgets, whichever it is.
pub enum AnyWidget<F> {
    Label(Label),
    Button(Button<F>),
    ProgressBar(ProgressBar),
}

impl<F: Fn()> Widget for AnyWidget<F> {
    open spec fn wf(&self) -> bool {
        match *self {
            AnyWidget::Label(label) => label.wf(),
            AnyWidget::Button(button) => button.wf(),
            AnyWidget::ProgressBar(bar) => bar.wf(),
        }
    }

    open spec fn draw_ops(&self) -> Seq<DrawOp> {
        match *self {
            AnyWidget::Label(label) => label.draw_ops(),
            AnyWidget::Button(button) => button.draw_ops(),
            AnyWidget::ProgressBar(bar) => bar.draw_ops(),
        }
    }

    open spec fn bounds(&self) -> Rectangle {
        match *self {
            AnyWidget::Label(label) => label.bounds(),
            AnyWidget::Button(button) => button.bounds(),
            AnyWidget::ProgressBar(bar) => bar.bounds(),
        }
    }

    open spec fn consumes(&self, event: Event) -> bool {
        match *self {
            AnyWidget::Label(label) => label.consumes(event),
            AnyWidget::Button(button) => button.consumes(event),
            AnyWidget::ProgressBar(bar) => bar.consumes(event),
        }
    }

    open spec fn after_event(&self, event: Event) -> Self {
        match *self {
            AnyWidget::Label(label) => AnyWidget::Label(label.after_event(event)),
            AnyWidget::Button(button) => AnyWidget::Button(button.after_event(event)),
            AnyWidget::ProgressBar(bar) => AnyWidget::ProgressBar(bar.after_event(event)),
        }
    }

    open spec fn callbacks_ran(&self, event: Event) -> bool {
        match *self {
            AnyWidget::Label(label) => label.callbacks_ran(event),
            AnyWidget::Button(button) => button.callbacks_ran(event),
            AnyWidget::ProgressBar(bar) => bar.callbacks_ran(event),
        }
    }

    fn draw(&self, display: &mut DisplayManager) -> (result: Result<(), DisplayError>) {
        match self {
            AnyWidget::Label(label) => label.draw(display),
            AnyWidget::Button(button) => button.draw(display),
            AnyWidget::ProgressBar(bar) => bar.draw(display),
        }
    }

    fn handle_event(&mut self, event: &Event) -> (consumed: bool) {
        match self {
            AnyWidget::Label(label) => label.handle_event(event),
            AnyWidget::Button(button) => button.handle_event(event),
            AnyWidget::ProgressBar(bar) => bar.handle_event(event),
        }
    }

    fn get_bounds(&self) -> (bounds: Rectangle) {
        match self {
            AnyWidget::Label(label) => label.get_bounds(),
            AnyWidget::Button(button) => button.get_bounds(),
            AnyWidget::ProgressBar(bar) => bar.get_bounds(),
        }
    }
}


/// What a screen's answer to an event does to the display: a panel that
/// answers takes `ops`, in order; one that does not takes nothing. The
/// failure of such a drawing is not reported.
pub open spec fn drawn(before: DisplayManager, after: DisplayManager, ops: Seq<DrawOp>) -> bool {
    &&& after.is_online() == before.is_online()
    &&& before.is_online() ==> after@ == before@ + ops
    &&& !before.is_online() ==> after@ == before@
}

/// A composition of widgets that draws itself as one frame and answers
/// events. Its contract speaks of the screen's model, a mathematical value
/// that holds what the screen shows and remembers.
pub trait Screen: Sized {
    /// The type of the model.
    type Model;

    /// The model of this screen.
    spec fn model(&self) -> Self::Model;

    /// What the screen keeps true of itself.
    spec fn wf(&self) -> bool;

    /// The primitives of one frame, in order.
    spec fn model_draw_ops(model: Self::Model) -> Seq<DrawOp>;

    /// Whether the screen consumes `event`.
    spec fn model_consumes(model: Self::Model, event: Event) -> bool;

    /// The model after `event` arrived at `now`, on a panel that answers
    /// or not.
    spec fn model_after_event(
        model: Self::Model,
        event: Event,
        now: u64,
        online: bool,
    ) -> Self::Model;

    /// The primitives that the screen issues when `event` arrives at `now`.
    spec fn model_event_ops(model: Self::Model, event: Event, now: u64) -> Seq<DrawOp>;

    /// What is known of the callbacks once `event` was handled: each callback
    /// that the event calls for has run.
    spec fn model_callbacks_ran(model: Self::Model, event: Event) -> bool;

    /// Draws the frame.
    fn draw(&self, display: &mut DisplayManager) -> (result: Result<(), DisplayError>)
        requires
            self.wf(),
        ensures
            issued(*old(display), *final(display), Self::model_draw_ops(self.model()), result),
    ;

    /// Hands `event`, which arrived at `now`, to the screen and says whether
    /// the screen consumed it.
    fn handle_event(&mut self, event: &Event, now: u64, display: &mut DisplayManager) -> (consumed:
        bool)
        requires
            old(self).wf(),
        ensures
            final(self).wf(),
            consumed == Self::model_consumes(old(self).model(), *event),
            final(self).model() == Self::model_after_event(
                old(self).model(),
                *event,
                now,
                old(display).is_online(),
            ),
            drawn(
                *old(display),
                *final(display),
                Self::model_event_ops(old(self).model(), *event, now),
            ),
            Self::model_callbacks_ran(old(self).model(), *event),
    ;
}

/// The primitives of `widgets`, each drawn in turn.
pub open spec fn widgets_ops<F: Fn()>(widgets: Seq<AnyWidget<F>>) -> Seq<DrawOp>
    decreases widgets.len(),
{
    if widgets.len() == 0 {
        Seq::empty()
    } else {
        widgets_ops(widgets.drop_last()) + widgets.last().draw_ops()
    }
}

/// The frame of a screen of `widgets`: blank, every widget in order, show.
pub open spec fn widgets_frame<F: Fn()>(widgets: Seq<AnyWidget<F>>) -> Seq<DrawOp> {
    seq![DrawOp::Clear] + widgets_ops(widgets) + seq![DrawOp::Flush]
}

/// Position of the first of `widgets` that consumes `event`; their number
/// where none does.
pub open spec fn first_consumer<F: Fn()>(widgets: Seq<AnyWidget<F>>, event: Event) -> int
    decreases widgets.len(),
{
    if widgets.len() == 0 || widgets[0].consumes(event) {
        0
    } else {
        1 + first_consumer(widgets.drop_first(), event)
    }
}

/// `widgets` after `event` was offered to them in order until one consumed
/// it: that one changed, and no other.
pub open spec fn widgets_after_event<F: Fn()>(widgets: Seq<AnyWidget<F>>, event: Event) -> Seq<
    AnyWidget<F>,
> {
    let first = first_consumer(widgets, event);
    if first < widgets.len() {
        widgets.update(first, widgets[first].after_event(event))
    } else {
        widgets
    }
}

/// Whether every one of `widgets` is well-formed.
pub open spec fn widgets_wf<F: Fn()>(widgets: Seq<AnyWidget<F>>) -> bool {
    forall|i: int| 0 <= i < widgets.len() ==> (#[trigger] widgets[i]).wf()
}

/// A position before which no widget consumes `event`, and at which one
/// does or the widgets end, is the one that `first_consumer` gives.
pub proof fn lemma_first_consumer_is<F: Fn()>(widgets: Seq<AnyWidget<F>>, event: Event, n: int)
    requires
        0 <= n <= widgets.len(),
        forall|k: int| 0 <= k < n ==> !(#[trigger] widgets[k]).consumes(event),
        n < widgets.len() ==> widgets[n].consumes(event),
    ensures
        first_consumer(widgets, event) == n,
    decreases n,
{
    if n > 0 {
        let rest = widgets.drop_first();
        assert(!widgets[0].consumes(event));
        assert forall|k: int| 0 <= k < n - 1 implies !(#[trigger] rest[k]).consumes(event) by {
            assert(rest[k] == widgets[k + 1]);
        }
        lemma_first_consumer_is(rest, event, n - 1);
    }
}

/// No widget before the first consumer consumes the event, and the first
/// consumer, where there is one, does.
pub proof fn lemma_first_consumer_bounds<F: Fn()>(widgets: Seq<AnyWidget<F>>, event: Event)
    ensures
        0 <= first_consumer(widgets, event) <= widgets.len(),
        forall|k: int|
            0 <= k < first_consumer(widgets, event) ==> !(#[trigger] widgets[k]).consumes(event),
        first_consumer(widgets, event) < widgets.len() ==> widgets[first_consumer(
            widgets,
            event,
        )].consumes(event),
    decreases widgets.len(),
{
    if widgets.len() == 0 || widgets[0].consumes(event) {
    } else {
        let rest = widgets.drop_first();
        lemma_first_consumer_bounds(rest, event);
        assert forall|k: int| 0 <= k < first_consumer(widgets, event) implies !(
        #[trigger] widgets[k]).consumes(event) by {
            if k > 0 {
                assert(widgets[k] == rest[k - 1]);
            }
        }
        if first_consumer(widgets, event) < widgets.len() {
            assert(widgets[first_consumer(widgets, event)] == rest[first_consumer(rest, event)]);
        }
    }
}

/// A screen that is a list of widgets, drawn and offered events in the order
/// in which they were added.
pub struct DefaultScreen<F> {
    widgets: Vec<AnyWidget<F>>,
}

impl<F: Fn()> DefaultScreen<F> {
    /// The widgets, in the order in which they were added.
    pub closed spec fn widgets(&self) -> Seq<AnyWidget<F>> {
        self.widgets@
    }

    /// A screen without widgets.
    pub fn new() -> (screen: Self)
        ensures
            screen.wf(),
            screen.widgets() == Seq::<AnyWidget<F>>::empty(),
    {
        DefaultScreen { widgets: Vec::new() }
    }

    /// Adds `widget` behind the widgets that are there.
    pub fn add_widget(&mut self, widget: AnyWidget<F>)
        requires
            old(self).wf(),
            widget.wf(),
        ensures
            final(self).wf(),
            final(self).widgets() == old(self).widgets().push(widget),
    {
        self.widgets.push(widget);
    }

    /// Number of widgets.
    pub fn widget_count(&self) -> (n: usize)
        ensures
            n == self.widgets().len(),
    {
        self.widgets.len()
    }

    /// The widget at `index`, if there is one.
    pub fn get_widget(&self, index: usize) -> (widget: Option<&AnyWidget<F>>)
        ensures
            index < self.widgets().len() ==> widget == Some(&self.widgets()[index as int]),
            index >= self.widgets().len() ==> widget is None,
    {
        if index < self.widgets.len() {
            Some(&self.widgets[index])
        } else {
            None
        }
    }
}

impl<F: Fn()> Screen for DefaultScreen<F> {
    type Model = Seq<AnyWidget<F>>;

    open spec fn model(&self) -> Seq<AnyWidget<F>> {
        self.widgets()
    }

    open spec fn wf(&self) -> bool {
        widgets_wf(self.widgets())
    }

    open spec fn model_draw_ops(model: Seq<AnyWidget<F>>) -> Seq<DrawOp> {
        widgets_frame(model)
    }

    open spec fn model_consumes(model: Seq<AnyWidget<F>>, event: Event) -> bool {
        first_consumer(model, event) < model.len()
    }

    open spec fn model_after_event(
        model: Seq<AnyWidget<F>>,
        event: Event,
        now: u64,
        online: bool,
    ) -> Seq<AnyWidget<F>> {
        widgets_after_event(model, event)
    }

    open spec fn model_event_ops(model: Seq<AnyWidget<F>>, event: Event, now: u64) -> Seq<DrawOp> {
        if first_consumer(model, event) < model.len() {
            widgets_frame(widgets_after_event(model, event))
        } else {
            Seq::empty()
        }
    }

    open spec fn model_callbacks_ran(model: Seq<AnyWidget<F>>, event: Event) -> bool {
        first_consumer(model, event) < model.len() ==> model[first_consumer(
            model,
            event,
        )].callbacks_ran(event)
    }

    fn draw(&self, display: &mut DisplayManager) -> (result: Result<(), DisplayError>) {
        display.clear()?;
        let mut index: usize = 0;
        while index < self.widgets.len()
            invariant
                index <= self.widgets.len(),
                widgets_wf(self.widgets@),
                display.is_online(),
                old(display).is_online(),
                display@ == old(display)@ + seq![DrawOp::Clear] + widgets_ops(
                    self.widgets@.subrange(0, index as int),
                ),
            decreases self.widgets.len() - index,
        {
            proof {
                let upto = self.widgets@.subrange(0, index + 1);
                assert(upto.drop_last() == self.widgets@.subrange(0, index as int));
                assert(upto.last() == self.widgets@[index as int]);
            }
            self.widgets[index].draw(display)?;
            index += 1;
        }
        assert(self.widgets@.subrange(0, index as int) == self.widgets@);
        let result = display.flush();
        assert(display@ =~= old(display)@ + widgets_frame(self.widgets@));
        result
    }

    fn handle_event(&mut self, event: &Event, now: u64, display: &mut DisplayManager) -> (consumed:
        bool) {
        let mut handled = false;
        let mut index: usize = 0;
        while index < self.widgets.len()
            invariant_except_break
                !handled,
                self.widgets@ == old(self).widgets@,
                forall|k: int|
                    0 <= k < index ==> !(#[trigger] old(self).widgets@[k]).consumes(*event),
            invariant
                index <= self.widgets.len(),
                self.widgets.len() == old(self).widgets.len(),
                widgets_wf(old(self).widgets@),
            ensures
                handled ==> index < self.widgets.len() && old(self).widgets@[index as int].consumes(
                    *event,
                ) && self.widgets@ == old(self).widgets@.update(
                    index as int,
                    old(self).widgets@[index as int].after_event(*event),
                ) && old(self).widgets@[index as int].callbacks_ran(*event),
                !handled ==> index == self.widgets.len() && self.widgets@ == old(self).widgets@,
                forall|k: int|
                    0 <= k < index ==> !(#[trigger] old(self).widgets@[k]).consumes(*event),
                widgets_wf(self.widgets@),
            decreases self.widgets.len() - index,
        {
            let ghost before = self.widgets@;
            let consumed = self.widgets[index].handle_event(event);
            if consumed {
                handled = true;
                assert(self.widgets@ =~= before.update(
                    index as int,
                    before[index as int].after_event(*event),
                ));
                break ;
            }
            assert(self.widgets@ =~= before);
            index += 1;
        }
        proof {
            lemma_first_consumer_is(old(self).widgets@, *event, index as int);
        }
        if handled {
            let _ = self.draw(display);
        }
        handled
    }
}


/// Event routing: the first widget that consumes an event is the only one
/// that the event changes. The widgets before it do not consume the event,
/// and neither they nor the widgets behind it change.
pub proof fn lemma_event_routing<F: Fn()>(widgets: Seq<AnyWidget<F>>, event: Event)
    ensures
        widgets_after_event(widgets, event).len() == widgets.len(),
        0 <= first_consumer(widgets, event) <= widgets.len(),
        forall|i: int|
            0 <= i < widgets.len() && i != first_consumer(widgets, event)
                ==> #[trigger] widgets_after_event(widgets, event)[i] == widgets[i],
        forall|i: int|
            0 <= i < first_consumer(widgets, event) ==> !(#[trigger] widgets[i]).consumes(event),
        first_consumer(widgets, event) < widgets.len() ==> {
            let first = first_consumer(widgets, event);
            &&& widgets[first].consumes(event)
            &&& widgets_after_event(widgets, event)[first] == widgets[first].after_event(event)
        },
{
    lemma_first_consumer_bounds(widgets, event);
}


/// One of the screens, whichever it is.
pub enum AnyScreen<F> {
    Default(DefaultScreen<F>),
    Loading(LoadingScreen),
    Home(HomeScreen<F>),
    Menu(MenuScreen<F>),
}

/// The model of one of the screens.
pub enum AnyScreenModel<F> {
    Default(Seq<AnyWidget<F>>),
    Loading(LoadingModel),
    Home(HomeModel<F>),
    Menu(MenuModel<F>),
}

impl<F: Fn()> Screen for AnyScreen<F> {
    type Model = AnyScreenModel<F>;

    open spec fn model(&self) -> AnyScreenModel<F> {
        match *self {
            AnyScreen::Default(screen) => AnyScreenModel::Default(screen.model()),
            AnyScreen::Loading(screen) => AnyScreenModel::Loading(screen.model()),
            AnyScreen::Home(screen) => AnyScreenModel::Home(screen.model()),
            AnyScreen::Menu(screen) => AnyScreenModel::Menu(screen.model()),
        }
    }

    open spec fn wf(&self) -> bool {
        match *self {
            AnyScreen::Default(screen) => screen.wf(),
            AnyScreen::Loading(screen) => screen.wf(),
            AnyScreen::Home(screen) => screen.wf(),
            AnyScreen::Menu(screen) => screen.wf(),
        }
    }

    open spec fn model_draw_ops(model: AnyScreenModel<F>) -> Seq<DrawOp> {
        match model {
            AnyScreenModel::Default(inner) => DefaultScreen::<F>::model_draw_ops(inner),
            AnyScreenModel::Loading(inner) => LoadingScreen::model_draw_ops(inner),
            AnyScreenModel::Home(inner) => HomeScreen::<F>::model_draw_ops(inner),
            AnyScreenModel::Menu(inner) => MenuScreen::<F>::model_draw_ops(inner),
        }
    }

    open spec fn model_consumes(model: AnyScreenModel<F>, event: Event) -> bool {
        match model {
            AnyScreenModel::Default(inner) => DefaultScreen::<F>::model_consumes(inner, event),
            AnyScreenModel::Loading(inner) => LoadingScreen::model_consumes(inner, event),
            AnyScreenModel::Home(inner) => HomeScreen::<F>::model_consumes(inner, event),
            AnyScreenModel::Menu(inner) => MenuScreen::<F>::model_consumes(inner, event),
        }
    }

    open spec fn model_after_event(
        model: AnyScreenModel<F>,
        event: Event,
        now: u64,
        online: bool,
    ) -> AnyScreenModel<F> {
        match model {
            AnyScreenModel::Default(inner) => AnyScreenModel::Default(
                DefaultScreen::<F>::model_after_event(inner, event, now, online),
            ),
            AnyScreenModel::Loading(inner) => AnyScreenModel::Loading(
                LoadingScreen::model_after_event(inner, event, now, online),
            ),
            AnyScreenModel::Home(inner) => AnyScreenModel::Home(
                HomeScreen::<F>::model_after_event(inner, event, now, online),
            ),
            AnyScreenModel::Menu(inner) => AnyScreenModel::Menu(
                MenuScreen::<F>::model_after_event(inner, event, now, online),
            ),
        }
    }

    open spec fn model_event_ops(model: AnyScreenModel<F>, event: Event, now: u64) -> Seq<DrawOp> {
        match model {
            AnyScreenModel::Default(inner) => DefaultScreen::<F>::model_event_ops(
                inner,
                event,
                now,
            ),
            AnyScreenModel::Loading(inner) => LoadingScreen::model_event_ops(inner, event, now),
            AnyScreenModel::Home(inner) => HomeScreen::<F>::model_event_ops(inner, event, now),
            AnyScreenModel::Menu(inner) => MenuScreen::<F>::model_event_ops(inner, event, now),
        }
    }

    open spec fn model_callbacks_ran(model: AnyScreenModel<F>, event: Event) -> bool {
        match model {
            AnyScreenModel::Default(inner) => DefaultScreen::<F>::model_callbacks_ran(
                inner,
                event,
            ),
            AnyScreenModel::Loading(inner) => LoadingScreen::model_callbacks_ran(inner, event),
            AnyScreenModel::Home(inner) => HomeScreen::<F>::model_callbacks_ran(inner, event),
            AnyScreenModel::Menu(inner) => MenuScreen::<F>::model_callbacks_ran(inner, event),
        }
    }

    fn draw(&self, display: &mut DisplayManager) -> (result: Result<(), DisplayError>) {
        match self {
            AnyScreen::Default(screen) => screen.draw(display),
            AnyScreen::Loading(screen) => screen.draw(display),
            AnyScreen::Home(screen) => screen.draw(display),
            AnyScreen::Menu(screen) => screen.draw(display),
        }
    }

    fn handle_event(&mut self, event: &Event, now: u64, display: &mut DisplayManager) -> (consumed:
        bool) {
        match self {
            AnyScreen::Default(screen) => screen.handle_event(event, now, display),
            AnyScreen::Loading(screen) => screen.handle_event(event, now, display),
            AnyScreen::Home(screen) => screen.handle_event(event, now, display),
            AnyScreen::Menu(screen) => screen.handle_event(event, now, display),
        }
    }
}


/// The model of a screen after `events` arrived at `now`, in order.
pub open spec fn model_after_events<F: Fn()>(
    model: AnyScreenModel<F>,
    events: Seq<Event>,
    now: u64,
    online: bool,
) -> AnyScreenModel<F>
    decreases events.len(),
{
    if events.len() == 0 {
        model
    } else {
        model_after_events(
            AnyScreen::<F>::model_after_event(model, events[0], now, online),
            events.drop_first(),
            now,
            online,
        )
    }
}

/// The primitives that a screen issues to a panel that answers when
/// `events` arrive at `now`, in order.
pub open spec fn events_ops<F: Fn()>(model: AnyScreenModel<F>, events: Seq<Event>, now: u64) -> Seq<
    DrawOp,
>
    decreases events.len(),
{
    if events.len() == 0 {
        Seq::empty()
    } else {
        AnyScreen::<F>::model_event_ops(model, events[0], now) + events_ops(
            AnyScreen::<F>::model_after_event(model, events[0], now, true),
            events.drop_first(),
            now,
        )
    }
}

/// What is known of the callbacks once a screen has handled `events`: for
/// each event in turn, each callback that it calls for has run.
pub open spec fn events_callbacks_ran<F: Fn()>(
    model: AnyScreenModel<F>,
    events: Seq<Event>,
    now: u64,
    online: bool,
) -> bool
    decreases events.len(),
{
    if events.len() == 0 {
        true
    } else {
        &&& AnyScreen::<F>::model_callbacks_ran(model, events[0])
        &&& events_callbacks_ran(
            AnyScreen::<F>::model_after_event(model, events[0], now, online),
            events.drop_first(),
            now,
            online,
        )
    }
}

/// A concrete kind of screen, which the manager can look up by its type.
pub trait ScreenVariant<F>: Sized {
    /// `screen` as a screen of any kind.
    spec fn wrap(self) -> AnyScreen<F>;

    /// Whether `screen` is of this kind.
    spec fn is_kind(screen: AnyScreen<F>) -> bool;

    /// The screen inside `screen`, where `screen` is of this kind.
    fn select(screen: &mut AnyScreen<F>) -> (found: Option<&mut Self>)
        ensures
            found is Some <==> Self::is_kind(*old(screen)),
            found is Some ==> *old(screen) == (*found->0).wrap(),
            found is Some ==> *final(screen) == (*final(found->0)).wrap(),
            found is None ==> *final(screen) == *old(screen),
    ;
}

impl<F: Fn()> ScreenVariant<F> for DefaultScreen<F> {
    open spec fn wrap(self) -> AnyScreen<F> {
        AnyScreen::Default(self)
    }

    open spec fn is_kind(screen: AnyScreen<F>) -> bool {
        screen is Default
    }

    fn select(screen: &mut AnyScreen<F>) -> (found: Option<&mut Self>) {
        match screen {
            AnyScreen::Default(inner) => Some(inner),
            _ => None,
        }
    }
}

impl<F: Fn()> ScreenVariant<F> for LoadingScreen {
    open spec fn wrap(self) -> AnyScreen<F> {
        AnyScreen::Loading(self)
    }

    open spec fn is_kind(screen: AnyScreen<F>) -> bool {
        screen is Loading
    }

    fn select(screen: &mut AnyScreen<F>) -> (found: Option<&mut Self>) {
        match screen {
            AnyScreen::Loading(inner) => Some(inner),
            _ => None,
        }
    }
}

impl<F: Fn()> ScreenVariant<F> for HomeScreen<F> {
    open spec fn wrap(self) -> AnyScreen<F> {
        AnyScreen::Home(self)
    }

    open spec fn is_kind(screen: AnyScreen<F>) -> bool {
        screen is Home
    }

    fn select(screen: &mut AnyScreen<F>) -> (found: Option<&mut Self>) {
        match screen {
            AnyScreen::Home(inner) => Some(inner),
            _ => None,
        }
    }
}

impl<F: Fn()> ScreenVariant<F> for MenuScreen<F> {
    open spec fn wrap(self) -> AnyScreen<F> {
        AnyScreen::Menu(self)
    }

    open spec fn is_kind(screen: AnyScreen<F>) -> bool {
        screen is Menu
    }

    fn select(screen: &mut AnyScreen<F>) -> (found: Option<&mut Self>) {
        match screen {
            AnyScreen::Menu(inner) => Some(inner),
            _ => None,
        }
    }
}

/// The screen manager: the screens in the order in which they were added,
/// and which of them is active.
pub struct ScreenManager<F> {
    screens: Vec<AnyScreen<F>>,
    current_screen: usize,
}

impl<F: Fn()> ScreenManager<F> {
    /// The screens, in the order in which they were added.
    pub closed spec fn screens(&self) -> Seq<AnyScreen<F>> {
        self.screens@
    }

    /// Position of the active screen.
    pub closed spec fn current_screen(&self) -> usize {
        self.current_screen
    }

    /// Every screen is well-formed, and the active screen is one of them
    /// once there is a screen.
    pub open spec fn wf(&self) -> bool {
        &&& forall|i: int| 0 <= i < self.screens().len() ==> (#[trigger] self.screens()[i]).wf()
        &&& self.screens().len() == 0 ==> self.current_screen() == 0
        &&& self.screens().len() > 0 ==> self.current_screen() < self.screens().len()
    }

    /// A manager without screens.
    pub fn new() -> (manager: Self)
        ensures
            manager.wf(),
            manager.screens() == Seq::<AnyScreen<F>>::empty(),
            manager.current_screen() == 0,
    {
        ScreenManager { screens: Vec::new(), current_screen: 0 }
    }

    /// Adds `screen` behind the screens that are there. The active screen
    /// stays; the first screen added is active from the start.
    pub fn add_screen(&mut self, screen: AnyScreen<F>)
        requires
            old(self).wf(),
            screen.wf(),
        ensures
            final(self).wf(),
            final(self).screens() == old(self).screens().push(screen),
            final(self).current_screen() == old(self).current_screen(),
    {
        self.screens.push(screen);
    }

    /// Number of screens.
    pub fn screen_count(&self) -> (n: usize)
        ensures
            n == self.screens().len(),
    {
        self.screens.len()
    }

    /// Position of the active screen.
    pub fn current_screen_index(&self) -> (index: usize)
        ensures
            index == self.current_screen(),
    {
        self.current_screen
    }

    /// Makes the screen at `index` the active one and draws it; the result
    /// is that of the drawing, and the screen is active even if the drawing
    /// failed. With no screen at `index` nothing happens.
    pub fn switch_to_screen(&mut self, index: usize, display: &mut DisplayManager) -> (result:
        Result<(), DisplayError>)
        requires
            old(self).wf(),
        ensures
            final(self).wf(),
            final(self).screens() == old(self).screens(),
            index < old(self).screens().len() ==> {
                &&& final(self).current_screen() == index
                &&& issued(
                    *old(display),
                    *final(display),
                    AnyScreen::<F>::model_draw_ops(old(self).screens()[index as int].model()),
                    result,
                )
            },
            index >= old(self).screens().len() ==> {
                &&& final(self).current_screen() == old(self).current_screen()
                &&& result is Ok
                &&& final(display)@ == old(display)@
                &&& final(display).is_online() == old(display).is_online()
            },
    {
        if index < self.screens.len() {
            self.current_screen = index;
            self.screens[index].draw(display)?;
        }
        Ok(())
    }

    /// Takes every pending event from `queue`, oldest first, and hands each
    /// to the active screen, with `now` as the time. A drawing that fails
    /// stops nothing: the events that follow are handled all the same.
    pub fn process_events(
        &mut self,
        queue: &mut EventQueue,
        now: u64,
        display: &mut DisplayManager,
    ) -> (result: Result<(), DisplayError>)
        requires
            old(self).wf(),
            old(queue)@.len() > 0 ==> old(self).screens().len() > 0,
        ensures
            result is Ok,
            final(self).wf(),
            final(queue)@ == Seq::<Event>::empty(),
            final(self).current_screen() == old(self).current_screen(),
            final(self).screens().len() == old(self).screens().len(),
            forall|i: int|
                0 <= i < old(self).screens().len() && i != old(self).current_screen()
                    ==> #[trigger] final(self).screens()[i] == old(self).screens()[i],
            old(self).screens().len() > 0 ==> {
                let active = old(self).screens()[old(self).current_screen() as int].model();
                &&& final(self).screens()[old(self).current_screen() as int].model()
                    == model_after_events(active, old(queue)@, now, old(display).is_online())
                &&& drawn(*old(display), *final(display), events_ops(active, old(queue)@, now))
                &&& events_callbacks_ran(active, old(queue)@, now, old(display).is_online())
            },
            old(self).screens().len() == 0 ==> final(display)@ == old(display)@,
            old(self).screens().len() == 0 ==> final(display).is_online() == old(
                display,
            ).is_online(),
    {
        if self.screens.len() == 0 {
            assert(queue@ =~= Seq::<Event>::empty());
            return Ok(());
        }
        let ghost online = display.is_online();
        let ghost active = self.screens@[self.current_screen as int].model();
        let ghost events = queue@;
        let ghost issued_before = display@;
        let current = self.current_screen;
        assert(display@ =~= issued_before + Seq::<DrawOp>::empty());
        loop
            invariant
                current == self.current_screen == old(self).current_screen,
                current < self.screens.len(),
                self.screens.len() == old(self).screens.len(),
                forall|i: int| 0 <= i < self.screens.len() ==> (#[trigger] self.screens@[i]).wf(),
                forall|i: int|
                    0 <= i < self.screens.len() && i != current ==> #[trigger] self.screens@[i]
                        == old(self).screens@[i],
                display.is_online() == online,
                model_after_events(self.screens@[current as int].model(), queue@, now, online)
                    == model_after_events(active, events, now, online),
                online ==> display@ + events_ops(self.screens@[current as int].model(), queue@, now)
                    == issued_before + events_ops(active, events, now),
                !online ==> display@ == issued_before,
                events_callbacks_ran(self.screens@[current as int].model(), queue@, now, online)
                    ==> events_callbacks_ran(active, events, now, online),
            ensures
                current == self.current_screen == old(self).current_screen,
                current < self.screens.len(),
                self.screens.len() == old(self).screens.len(),
                forall|i: int| 0 <= i < self.screens.len() ==> (#[trigger] self.screens@[i]).wf(),
                forall|i: int|
                    0 <= i < self.screens.len() && i != current ==> #[trigger] self.screens@[i]
                        == old(self).screens@[i],
                display.is_online() == online,
                queue@.len() == 0,
                self.screens@[current as int].model() == model_after_events(
                    active,
                    events,
                    now,
                    online,
                ),
                online ==> display@ == issued_before + events_ops(active, events, now),
                !online ==> display@ == issued_before,
                events_callbacks_ran(active, events, now, online),
            decreases queue@.len(),
        {
            let ghost pending = queue@;
            let ghost model = self.screens@[current as int].model();
            let ghost shown = display@;
            let ghost before = self.screens@;
            match queue.pop() {
                Some(event) => {
                    assert(pending.drop_first() == queue@);
                    assert(event == pending[0]);
                    self.screens[current].handle_event(&event, now, display);
                    proof {
                        let step = AnyScreen::<F>::model_event_ops(model, event, now);
                        let next = AnyScreen::<F>::model_after_event(model, event, now, true);
                        if online {
                            assert(shown + (step + events_ops(next, queue@, now)) =~= shown + step
                                + events_ops(next, queue@, now));
                        }
                        assert forall|i: int|
                            0 <= i < self.screens.len() && i != current implies (
                        #[trigger] self.screens@[i]) == old(self).screens@[i] by {
                            assert(self.screens@[i] == before[i]);
                        }
                    }
                },
                None => {
                    assert(display@ + Seq::<DrawOp>::empty() =~= display@);
                    break ;
                },
            }
        }
        Ok(())
    }

    /// The active screen, where it is of the kind `T`: for the caller to
    /// change in place. `None` where it is of another kind, and where there
    /// is no screen.
    pub fn get_screen_as_mut<T: ScreenVariant<F>>(&mut self) -> (found: Option<&mut T>)
        requires
            old(self).wf(),
        ensures
            found is Some <==> old(self).screens().len() > 0 && T::is_kind(
                old(self).screens()[old(self).current_screen() as int],
            ),
            final(self).current_screen() == old(self).current_screen(),
            final(self).screens().len() == old(self).screens().len(),
            forall|i: int|
                0 <= i < old(self).screens().len() && i != old(self).current_screen()
                    ==> #[trigger] final(self).screens()[i] == old(self).screens()[i],
            found is Some ==> {
                &&& old(self).screens()[old(self).current_screen() as int] == (*found->0).wrap()
                &&& final(self).screens()[old(self).current_screen() as int]
                    == (*final(found->0)).wrap()
            },
            found is None ==> final(self).screens() == old(self).screens(),
    {
        if self.screens.len() == 0 {
            return None;
        }
        let current = self.current_screen;
        T::select(&mut self.screens[current])
    }
}

} // verus!
