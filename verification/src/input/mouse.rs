//! Mouse state: which action each button saw this frame.

use vstd::prelude::*;

verus! {

/// Number of distinct buttons the runtime tracks.
pub const BUTTON_COUNT: usize = 8;

/// A mouse button the runtime understands.
#[derive(Debug, Clone, Copy, PartialEq, Eq, Structural, PartialOrd)]
pub enum Button {
    Left,
    Middle,
    Right,
    Extra1,
    Extra2,
    Extra3,
    Extra4,
    Extra5,
}

/// Each button's position in the mouse's state table.
pub open spec fn spec_button_index(b: Button) -> int {
    match b {
        Button::Left => 0,
        Button::Middle => 1,
        Button::Right => 2,
        Button::Extra1 => 3,
        Button::Extra2 => 4,
        Button::Extra3 => 5,
        Button::Extra4 => 6,
        Button::Extra5 => 7,
    }
}

/// Position of `b` in the state table.
pub fn button_index(b: Button) -> (r: usize)
    ensures
        r == spec_button_index(b),
        r < BUTTON_COUNT,
{
    match b {
        Button::Left => 0,
        Button::Middle => 1,
        Button::Right => 2,
        Button::Extra1 => 3,
        Button::Extra2 => 4,
        Button::Extra3 => 5,
        Button::Extra4 => 6,
        Button::Extra5 => 7,
    }
}

/// What happened to a button this frame.
#[derive(Debug, Clone, Copy, PartialEq, Eq, Structural)]
pub enum ButtonAction {
    Idle,
    Press,
    Release,
}

impl Default for ButtonAction {
    fn default() -> (r: Self)
        ensures
            r == ButtonAction::Idle,
    {
        ButtonAction::Idle
    }
}

/// A button together with the action it saw.
#[derive(Debug, Clone, Copy)]
pub struct MouseButtonEvent {
    pub button: Button,
    pub action: ButtonAction,
}

impl MouseButtonEvent {
    pub fn new(button: Button, action: ButtonAction) -> (r: Self)
        ensures
            r.button == button,
            r.action == action,
    {
        MouseButtonEvent { button, action }
    }
}

/// Per-frame button states, one slot per button.
pub struct Mouse {
    button_states: Vec<ButtonAction>,
}

impl Mouse {
    pub closed spec fn view(&self) -> Seq<ButtonAction> {
        self.button_states@
    }

    pub open spec fn wf(&self) -> bool {
        self.view().len() == BUTTON_COUNT
    }

    pub fn new() -> (r: Self)
        ensures
            r.wf(),
            forall|i: int| 0 <= i < BUTTON_COUNT ==> r.view()[i] == ButtonAction::Idle,
    {
        let mut button_states: Vec<ButtonAction> = Vec::new();
        let mut i: usize = 0;
        while i < BUTTON_COUNT
            invariant
                i <= BUTTON_COUNT,
                button_states@.len() == i,
                forall|j: int| 0 <= j < i ==> button_states@[j] == ButtonAction::Idle,
            decreases BUTTON_COUNT - i,
        {
            button_states.push(ButtonAction::Idle);
            i += 1;
        }
        Mouse { button_states }
    }

    /// Whether the state table has its full size; true for every mouse
    /// this crate constructs.
    pub fn button_count_ok(&self) -> (r: bool)
        ensures
            r == self.wf(),
    {
        self.button_states.len() == BUTTON_COUNT
    }

    /// Forgets last frame's actions.
    pub fn new_frame(&mut self)
        requires
            old(self).wf(),
        ensures
            final(self).wf(),
            forall|i: int| 0 <= i < BUTTON_COUNT ==> final(self).view()[i] == ButtonAction::Idle,
    {
        let mut i: usize = 0;
        while i < BUTTON_COUNT
            invariant
                self.wf(),
                i <= BUTTON_COUNT,
                forall|j: int| 0 <= j < i ==> self.view()[j] == ButtonAction::Idle,
            decreases BUTTON_COUNT - i,
        {
            self.button_states[i] = ButtonAction::Idle;
            i += 1;
        }
    }

    /// Records the event's action under its button.
    pub fn process(&mut self, event: MouseButtonEvent)
        requires
            old(self).wf(),
        ensures
            final(self).wf(),
            final(self).view() == old(self).view().update(
                spec_button_index(event.button), event.action),
    {
        let i = button_index(event.button);
        self.button_states[i] = event.action;
    }

    /// The action recorded for `button` this frame.
    pub fn check(&self, button: Button) -> (r: ButtonAction)
        requires
            self.wf(),
        ensures
            r == self.view()[spec_button_index(button)],
    {
        let i = button_index(button);
        self.button_states[i]
    }
}

impl Default for Mouse {
    fn default() -> (r: Self)
        ensures
            r.wf(),
            forall|i: int| 0 <= i < BUTTON_COUNT ==> r.view()[i] == ButtonAction::Idle,
    {
        Mouse::new()
    }
}

} // verus!
