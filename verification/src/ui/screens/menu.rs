//! A menu: a title, a column of items with one of them selected, and a back
//! button. One button moves the selection, another runs the selected item's
//! action.

use crate::drivers::display::{DisplayError, DisplayManager, DrawOp, TextSize};
use crate::system::events::Event;
use crate::ui::framework::{
    button_fits, drawn, lemma_ascii_text_len, text_width, Button, Label, Position, Rectangle,
    Screen, Widget,
};
use vstd::prelude::*;

verus! {

/// The pin of the button that runs the selected item's action.
pub const MENU_SELECT_PIN: u32 = 32;

/// The pin of the button that moves the selection on.
pub const MENU_NAV_PIN: u32 = 33;

/// Height of a menu item, in pixels.
pub const MENU_ITEM_HEIGHT: u32 = 15;

/// The top of the item at `index`: the first at 20, each 18 below the one
/// before.
pub open spec fn item_top(index: int) -> int {
    20 + index * 18
}

/// The rectangle of the item at `index`.
pub open spec fn item_bounds(index: int) -> Rectangle {
    Rectangle { x: 10, y: item_top(index) as i32, width: 108, height: MENU_ITEM_HEIGHT }
}

/// Whether an item with `text` fits as the item at `index`.
pub open spec fn menu_item_fits(text: Seq<char>, index: int) -> bool {
    &&& item_top(index) + 2 <= i32::MAX
    &&& text_width(text, TextSize::Normal) <= u32::MAX
}

/// One line of a menu: a button and the action that the line stands for.
pub struct MenuItem<F> {
    button: Button<F>,
    action: F,
}

impl<F: Fn()> MenuItem<F> {
    /// The button that shows the item.
    pub closed spec fn button(&self) -> Button<F> {
        self.button
    }

    /// The action of the item.
    pub closed spec fn action(&self) -> F {
        self.action
    }

    /// The button is well-formed and the action may be called.
    pub open spec fn item_wf(&self) -> bool {
        &&& self.button().button_wf()
        &&& call_requires(self.action(), ())
    }

    /// An item with `text` and `action`, `width` pixels wide at `(x, y)`. The
    /// menu runs the action itself: the button gets no callback.
    pub fn new(text: &str, x: i32, y: i32, width: u32, action: F) -> (item: Self)
        requires
            button_fits(text@, x, y, width, MENU_ITEM_HEIGHT),
            call_requires(action, ()),
        ensures
            item.item_wf(),
            item.action() == action,
            item.button().label().text() == text@,
            item.button().button_bounds() == (Rectangle {
                x,
                y,
                width,
                height: MENU_ITEM_HEIGHT,
            }),
            !item.button().pressed(),
            item.button().on_click() is None,
    {
        MenuItem { button: Button::new(text, x, y, width, MENU_ITEM_HEIGHT), action }
    }
}

/// What the menu shows and remembers.
pub struct MenuModel<F> {
    pub title: Label,
    pub items: Seq<MenuItem<F>>,
    pub back_button: Button<F>,
    pub selected_index: usize,
}

/// The outline that marks the item with the rectangle `bounds` as selected:
/// two pixels above and below it, 118 pixels wide from the left margin.
pub open spec fn highlight_op(bounds: Rectangle) -> DrawOp {
    DrawOp::Rectangle {
        x: 5,
        y: (bounds.y - 2) as i32,
        width: 118,
        height: (bounds.height + 4) as u32,
        filled: false,
    }
}

/// The primitives of `items` in order, the one at `selected` behind its
/// outline.
pub open spec fn items_ops<F: Fn()>(items: Seq<MenuItem<F>>, selected: int) -> Seq<DrawOp>
    decreases items.len(),
{
    if items.len() == 0 {
        Seq::empty()
    } else {
        let last = items.last().button();
        items_ops(items.drop_last(), selected) + (if items.len() - 1 == selected {
            seq![highlight_op(last.button_bounds())]
        } else {
            Seq::empty()
        }) + last.draw_ops()
    }
}

/// One frame of the menu: blank, title, items, back button, show.
pub open spec fn menu_frame<F: Fn()>(model: MenuModel<F>) -> Seq<DrawOp> {
    seq![DrawOp::Clear] + model.title.draw_ops() + items_ops(
        model.items,
        model.selected_index as int,
    ) + model.back_button.draw_ops() + seq![DrawOp::Flush]
}

/// The menu with the item behind the selected one selected, the first behind
/// the last. A menu without items stays as it is.
pub open spec fn menu_after_next<F>(model: MenuModel<F>) -> MenuModel<F> {
    if model.items.len() == 0 {
        model
    } else {
        MenuModel {
            title: model.title,
            items: model.items,
            back_button: model.back_button,
            selected_index: ((model.selected_index + 1) % (model.items.len() as int)) as usize,
        }
    }
}

/// The menu with the item before the selected one selected, the last before
/// the first. A menu without items stays as it is.
pub open spec fn menu_after_prev<F>(model: MenuModel<F>) -> MenuModel<F> {
    if model.items.len() == 0 {
        model
    } else {
        MenuModel {
            title: model.title,
            items: model.items,
            back_button: model.back_button,
            selected_index: if model.selected_index == 0 {
                (model.items.len() - 1) as usize
            } else {
                (model.selected_index - 1) as usize
            },
        }
    }
}

/// What is known once the selected item was activated: its action has run.
pub open spec fn selected_action_ran<F: Fn()>(model: MenuModel<F>) -> bool {
    model.items.len() > 0 && model.selected_index < model.items.len() ==> call_ensures(
        model.items[model.selected_index as int].action(),
        (),
        (),
    )
}

/// Whether the menu is well-formed: its parts are, every item stands in its
/// place in the column, and the selection is one of the items.
pub open spec fn menu_wf<F: Fn()>(model: MenuModel<F>) -> bool {
    &&& model.title.label_wf()
    &&& model.back_button.button_wf()
    &&& forall|i: int|
        0 <= i < model.items.len() ==> {
            &&& (#[trigger] model.items[i]).item_wf()
            &&& model.items[i].button().button_bounds() == item_bounds(i)
            &&& item_top(i) + 2 <= i32::MAX
        }
    &&& model.items.len() == 0 ==> model.selected_index == 0
    &&& model.items.len() > 0 ==> model.selected_index < model.items.len()
}

/// The menu screen.
pub struct MenuScreen<F> {
    title: Label,
    items: Vec<MenuItem<F>>,
    back_button: Button<F>,
    selected_index: usize,
}

impl<F: Fn()> MenuScreen<F> {
    /// What the menu shows and remembers.
    pub closed spec fn menu_model(&self) -> MenuModel<F> {
        MenuModel {
            title: self.title,
            items: self.items@,
            back_button: self.back_button,
            selected_index: self.selected_index,
        }
    }

    /// A menu with `title` and no items; the back button is released and
    /// has no callback.
    pub fn new(title: &str) -> (screen: Self)
        requires
            text_width(title@, TextSize::Normal) <= u32::MAX,
        ensures
            screen.wf(),
            screen.menu_model().title.text() == title@,
            screen.menu_model().title.position() == (Position { x: 5, y: 5 }),
            screen.menu_model().title.size() == TextSize::Normal,
            screen.menu_model().items == Seq::<MenuItem<F>>::empty(),
            screen.menu_model().back_button.label().text() == "Back"@,
            screen.menu_model().back_button.button_bounds() == (Rectangle {
                x: 5,
                y: 50,
                width: 40,
                height: 15,
            }),
            !screen.menu_model().back_button.pressed(),
            screen.menu_model().back_button.on_click() is None,
            screen.menu_model().selected_index == 0,
    {
        proof {
            reveal_strlit("Back");
            lemma_ascii_text_len("Back"@);
        }
        MenuScreen {
            title: Label::new(title, 5, 5, TextSize::Normal),
            items: Vec::new(),
            back_button: Button::new("Back", 5, 50, 40, 15),
            selected_index: 0,
        }
    }

    /// Adds an item with `text` and `action` below the items that are there.
    pub fn add_item(&mut self, text: &str, action: F)
        requires
            old(self).wf(),
            menu_item_fits(text@, old(self).menu_model().items.len() as int),
            call_requires(action, ()),
        ensures
            final(self).wf(),
            final(self).menu_model().items.len() == old(self).menu_model().items.len() + 1,
            final(self).menu_model().items.drop_last() == old(self).menu_model().items,
            final(self).menu_model().items.last().action() == action,
            final(self).menu_model().items.last().button().label().text() == text@,
            final(self).menu_model().title == old(self).menu_model().title,
            final(self).menu_model().back_button == old(self).menu_model().back_button,
            final(self).menu_model().selected_index == old(self).menu_model().selected_index,
    {
        let count = self.items.len();
        let top: i32 = (20 + count as i64 * 18) as i32;
        let item = MenuItem::new(text, 10, top, 108, action);
        self.items.push(item);
        assert(self.items@.drop_last() == old(self).items@);
    }

    /// Moves the selection to the next item, the first after the last, and
    /// draws the menu. Without items nothing happens.
    pub fn select_next(&mut self, display: &mut DisplayManager)
        requires
            old(self).wf(),
        ensures
            final(self).wf(),
            final(self).menu_model() == menu_after_next(old(self).menu_model()),
            drawn(
                *old(display),
                *final(display),
                if old(self).menu_model().items.len() == 0 {
                    Seq::empty()
                } else {
                    menu_frame(menu_after_next(old(self).menu_model()))
                },
            ),
    {
        if self.items.len() > 0 {
            let ghost before = self.selected_index as int;
            let ghost count = self.items.len() as int;
            self.selected_index = if self.selected_index + 1 == self.items.len() {
                0
            } else {
                self.selected_index + 1
            };
            let ghost after = self.selected_index as int;
            assert(after == (before + 1) % count) by (nonlinear_arith)
                requires
                    0 <= before < count,
                    after == if before + 1 == count {
                        0
                    } else {
                        before + 1
                    },
            ;
            let _ = self.draw(display);
        } else {
            assert(display@ =~= old(display)@ + Seq::<DrawOp>::empty());
        }
    }

    /// Moves the selection to the item before, the last before the first, and
    /// draws the menu. Without items nothing happens.
    pub fn select_prev(&mut self, display: &mut DisplayManager)
        requires
            old(self).wf(),
        ensures
            final(self).wf(),
            final(self).menu_model() == menu_after_prev(old(self).menu_model()),
            drawn(
                *old(display),
                *final(display),
                if old(self).menu_model().items.len() == 0 {
                    Seq::empty()
                } else {
                    menu_frame(menu_after_prev(old(self).menu_model()))
                },
            ),
    {
        if self.items.len() > 0 {
            self.selected_index = if self.selected_index == 0 {
                self.items.len() - 1
            } else {
                self.selected_index - 1
            };
            let _ = self.draw(display);
        } else {
            assert(display@ =~= old(display)@ + Seq::<DrawOp>::empty());
        }
    }

    /// Runs the action of the selected item. Without items nothing happens.
    pub fn activate_selected(&mut self)
        requires
            old(self).wf(),
        ensures
            final(self).wf(),
            final(self).menu_model() == old(self).menu_model(),
            selected_action_ran(old(self).menu_model()),
    {
        if self.items.len() > 0 {
            let item = &self.items[self.selected_index];
            (item.action)();
        }
    }

    /// Position of the selected item.
    pub fn get_selected_index(&self) -> (index: usize)
        ensures
            index == self.menu_model().selected_index,
    {
        self.selected_index
    }

    /// Number of items.
    pub fn item_count(&self) -> (n: usize)
        ensures
            n == self.menu_model().items.len(),
    {
        self.items.len()
    }
}

impl<F: Fn()> Screen for MenuScreen<F> {
    type Model = MenuModel<F>;

    open spec fn model(&self) -> MenuModel<F> {
        self.menu_model()
    }

    open spec fn wf(&self) -> bool {
        menu_wf(self.menu_model())
    }

    open spec fn model_draw_ops(model: MenuModel<F>) -> Seq<DrawOp> {
        menu_frame(model)
    }

    open spec fn model_consumes(model: MenuModel<F>, event: Event) -> bool {
        event == Event::ButtonPressed(MENU_SELECT_PIN) || event == Event::ButtonPressed(
            MENU_NAV_PIN,
        )
    }

    open spec fn model_after_event(
        model: MenuModel<F>,
        event: Event,
        now: u64,
        online: bool,
    ) -> MenuModel<F> {
        if event == Event::ButtonPressed(MENU_NAV_PIN) {
            menu_after_next(model)
        } else {
            model
        }
    }

    open spec fn model_event_ops(model: MenuModel<F>, event: Event, now: u64) -> Seq<DrawOp> {
        if event == Event::ButtonPressed(MENU_NAV_PIN) && model.items.len() > 0 {
            menu_frame(menu_after_next(model))
        } else {
            Seq::empty()
        }
    }

    open spec fn model_callbacks_ran(model: MenuModel<F>, event: Event) -> bool {
        event == Event::ButtonPressed(MENU_SELECT_PIN) ==> selected_action_ran(model)
    }

    fn draw(&self, display: &mut DisplayManager) -> (result: Result<(), DisplayError>) {
        display.clear()?;
        self.title.draw(display)?;
        let mut index: usize = 0;
        while index < self.items.len()
            invariant
                index <= self.items.len(),
                menu_wf(self.menu_model()),
                display.is_online(),
                old(display).is_online(),
                display@ == old(display)@ + seq![DrawOp::Clear] + self.title.draw_ops() + items_ops(
                    self.items@.subrange(0, index as int),
                    self.selected_index as int,
                ),
            decreases self.items.len() - index,
        {
            proof {
                let upto = self.items@.subrange(0, index + 1);
                assert(upto.drop_last() == self.items@.subrange(0, index as int));
                assert(upto.last() == self.items@[index as int]);
                assert(self.items@[index as int].button().button_bounds() == item_bounds(
                    index as int,
                ));
            }
            let item = &self.items[index];
            if index == self.selected_index {
                let bounds = item.button.get_bounds();
                display.draw_rectangle(5, bounds.y - 2, 118, bounds.height + 4, false)?;
            }
            item.button.draw(display)?;
            index += 1;
        }
        assert(self.items@.subrange(0, index as int) == self.items@);
        self.back_button.draw(display)?;
        let result = display.flush();
        assert(display@ =~= old(display)@ + menu_frame(self.menu_model()));
        result
    }

    fn handle_event(&mut self, event: &Event, now: u64, display: &mut DisplayManager) -> (consumed:
        bool) {
        let select = match event {
            Event::ButtonPressed(pin) => *pin == MENU_SELECT_PIN,
            _ => false,
        };
        let nav = match event {
            Event::ButtonPressed(pin) => *pin == MENU_NAV_PIN,
            _ => false,
        };
        if select {
            self.activate_selected();
            assert(display@ =~= old(display)@ + Seq::<DrawOp>::empty());
            true
        } else if nav {
            self.select_next(display);
            true
        } else {
            assert(display@ =~= old(display)@ + Seq::<DrawOp>::empty());
            false
        }
    }
}

} // verus!
