//! The state of the registered buttons, by pin.
//!
//! The caller reads the pins and hands the levels in. The lines are pulled
//! up: high is released and low is pressed.

use crate::system::events::{button_event, queue_after_push, Event, EventQueue};
use std::collections::HashMap;
use vstd::prelude::*;

verus! {

broadcast use vstd::std_specs::hash::group_hash_axioms;

/// Whether a button is held down.
#[derive(Clone, Copy, Debug, PartialEq, Eq)]
pub enum ButtonState {
    Pressed,
    Released,
}

/// What can go wrong with the buttons.
#[derive(Clone, Copy, Debug, PartialEq, Eq)]
pub enum InputError {
    /// The pin could not be read.
    GpioError,
    /// The button was never registered.
    NotInitialized,
}

/// The state of a button whose line is at `level_high`.
pub open spec fn level_state(level_high: bool) -> ButtonState {
    if level_high {
        ButtonState::Released
    } else {
        ButtonState::Pressed
    }
}

/// Whether the button on `pin_number` changes its state when its line is at
/// `level_high`: it is registered and in the other state.
pub open spec fn state_changes(
    states: Map<u32, ButtonState>,
    pin_number: u32,
    level_high: bool,
) -> bool {
    states.contains_key(pin_number) && states[pin_number] != level_state(level_high)
}

/// The states after the line of the button on `pin_number` was found at
/// `level_high`.
pub open spec fn states_after_update(
    states: Map<u32, ButtonState>,
    pin_number: u32,
    level_high: bool,
) -> Map<u32, ButtonState> {
    if state_changes(states, pin_number, level_high) {
        states.insert(pin_number, level_state(level_high))
    } else {
        states
    }
}

/// The states of the registered buttons. The view maps each registered pin
/// to the state of its button.
pub struct InputManager {
    button_states: HashMap<u32, ButtonState>,
}

impl View for InputManager {
    type V = Map<u32, ButtonState>;

    closed spec fn view(&self) -> Map<u32, ButtonState> {
        self.button_states@
    }
}

impl InputManager {
    /// A manager with no button registered.
    pub fn new() -> (manager: Self)
        ensures
            manager@ == Map::<u32, ButtonState>::empty(),
    {
        InputManager { button_states: HashMap::new() }
    }

    /// Registers the button on `pin_number`, whose line is at `level_high`,
    /// or sets its state anew where it is registered.
    pub fn register_button(&mut self, pin_number: u32, level_high: bool) -> (result: Result<
        (),
        InputError,
    >)
        ensures
            result is Ok,
            final(self)@ == old(self)@.insert(pin_number, level_state(level_high)),
    {
        let state = if level_high {
            ButtonState::Released
        } else {
            ButtonState::Pressed
        };
        self.button_states.insert(pin_number, state);
        Ok(())
    }

    /// Takes the level `level_high` of the line of the button on
    /// `pin_number`. Where the button is registered and its state changes,
    /// the event of the change joins `queue`; a button that was never
    /// registered is passed over.
    pub fn update_button_state(
        &mut self,
        pin_number: u32,
        level_high: bool,
        queue: &mut EventQueue,
    ) -> (result: Result<(), InputError>)
        ensures
            result is Ok,
            final(self)@ == states_after_update(old(self)@, pin_number, level_high),
            state_changes(old(self)@, pin_number, level_high) ==> final(queue)@
                == queue_after_push(old(queue)@, button_event(pin_number, level_high)),
            !state_changes(old(self)@, pin_number, level_high) ==> final(queue)@ == old(queue)@,
    {
        let changed = match self.button_states.get(&pin_number) {
            Some(ButtonState::Pressed) => level_high,
            Some(ButtonState::Released) => !level_high,
            None => false,
        };
        if changed {
            if level_high {
                queue.push(Event::ButtonReleased(pin_number));
                self.button_states.insert(pin_number, ButtonState::Released);
            } else {
                queue.push(Event::ButtonPressed(pin_number));
                self.button_states.insert(pin_number, ButtonState::Pressed);
            }
        }
        Ok(())
    }

    /// The state of the button on `pin_number`; `NotInitialized` where it was
    /// never registered.
    pub fn get_button_state(&self, pin_number: u32) -> (result: Result<ButtonState, InputError>)
        ensures
            self@.contains_key(pin_number) ==> result == Ok::<ButtonState, InputError>(
                self@[pin_number],
            ),
            !self@.contains_key(pin_number) ==> result == Err::<ButtonState, InputError>(
                InputError::NotInitialized,
            ),
    {
        match self.button_states.get(&pin_number) {
            Some(state) => Ok(*state),
            None => Err(InputError::NotInitialized),
        }
    }
}


/// The states after the lines of the buttons on `pins` were found at
/// `levels`, one after the other.
pub open spec fn states_after_poll(
    states: Map<u32, ButtonState>,
    pins: Seq<u32>,
    levels: Seq<bool>,
) -> Map<u32, ButtonState>
    recommends
        levels.len() == pins.len(),
    decreases pins.len(),
{
    if pins.len() == 0 || levels.len() == 0 {
        states
    } else {
        states_after_update(
            states_after_poll(states, pins.drop_last(), levels.drop_last()),
            pins.last(),
            levels.last(),
        )
    }
}

/// The events of the changes when the lines of the buttons on `pins` were
/// found at `levels`, one after the other.
pub open spec fn poll_events(
    states: Map<u32, ButtonState>,
    pins: Seq<u32>,
    levels: Seq<bool>,
) -> Seq<Event>
    recommends
        levels.len() == pins.len(),
    decreases pins.len(),
{
    if pins.len() == 0 || levels.len() == 0 {
        Seq::empty()
    } else {
        let before = states_after_poll(states, pins.drop_last(), levels.drop_last());
        let earlier = poll_events(states, pins.drop_last(), levels.drop_last());
        if state_changes(before, pins.last(), levels.last()) {
            earlier.push(button_event(pins.last(), levels.last()))
        } else {
            earlier
        }
    }
}

/// The buttons that are polled together. Its view is their pins, in the
/// order in which they were added.
pub struct ButtonPoller {
    buttons: Vec<u32>,
}

impl View for ButtonPoller {
    type V = Seq<u32>;

    closed spec fn view(&self) -> Seq<u32> {
        self.buttons@
    }
}

impl ButtonPoller {
    /// A poller without buttons.
    pub fn new() -> (poller: Self)
        ensures
            poller@ == Seq::<u32>::empty(),
    {
        ButtonPoller { buttons: Vec::new() }
    }

    /// Adds the button on `pin_number`, whose line is at `level_high`, and
    /// registers it with `input_manager`.
    pub fn add_button(&mut self, input_manager: &mut InputManager, pin_number: u32, level_high: bool)
        ensures
            final(self)@ == old(self)@.push(pin_number),
            final(input_manager)@ == old(input_manager)@.insert(
                pin_number,
                level_state(level_high),
            ),
    {
        let _ = input_manager.register_button(pin_number, level_high);
        self.buttons.push(pin_number);
    }

    /// Number of buttons.
    pub fn button_count(&self) -> (n: usize)
        ensures
            n == self@.len(),
    {
        self.buttons.len()
    }

    /// Hands the level of each button's line, as `levels` gives them in the
    /// order of the buttons, to `input_manager`.
    pub fn poll(&self, input_manager: &mut InputManager, levels: &Vec<bool>, queue: &mut EventQueue)
        requires
            levels.len() == self@.len(),
        ensures
            final(input_manager)@ == states_after_poll(old(input_manager)@, self@, levels@),
            final(queue)@ == old(queue)@ + poll_events(old(input_manager)@, self@, levels@),
    {
        let ghost states = input_manager@;
        let ghost pending = queue@;
        let mut index: usize = 0;
        assert(queue@ =~= pending + Seq::<Event>::empty());
        while index < self.buttons.len()
            invariant
                index <= self.buttons.len(),
                levels.len() == self.buttons.len(),
                input_manager@ == states_after_poll(
                    states,
                    self.buttons@.subrange(0, index as int),
                    levels@.subrange(0, index as int),
                ),
                queue@ == pending + poll_events(
                    states,
                    self.buttons@.subrange(0, index as int),
                    levels@.subrange(0, index as int),
                ),
            decreases self.buttons.len() - index,
        {
            proof {
                let pins = self.buttons@.subrange(0, index + 1);
                let read = levels@.subrange(0, index + 1);
                assert(pins.drop_last() == self.buttons@.subrange(0, index as int));
                assert(read.drop_last() == levels@.subrange(0, index as int));
                assert(pins.last() == self.buttons@[index as int]);
                assert(read.last() == levels@[index as int]);
            }
            let _ = input_manager.update_button_state(self.buttons[index], levels[index], queue);
            assert(queue@ =~= pending + poll_events(
                states,
                self.buttons@.subrange(0, index + 1),
                levels@.subrange(0, index + 1),
            ));
            index += 1;
        }
        assert(self.buttons@.subrange(0, index as int) == self.buttons@);
        assert(levels@.subrange(0, index as int) == levels@);
    }
}

} // verus!
