//! Input devices: per-frame keyboard and mouse state behind one pair of
//! capability traits.

use vstd::prelude::*;

pub mod keyboard;
pub mod mouse;

use keyboard::{Key, KeyAction, KeyEvent, Keyboard};
use mouse::{Button, ButtonAction, Mouse, MouseButtonEvent};

verus! {

/// Accepts input events of one kind.
pub trait InputProcessor<T> {
    fn process(&mut self, kind: T);
}

/// Answers what happened to one input of kind `T` this frame.
pub trait InputCheck<T, A> {
    fn check(&self, kind: T) -> A;
}

/// The devices the runtime polls each frame.
pub struct InputDevices {
    keyboard: Keyboard,
    mouse: Mouse,
}

impl InputDevices {
    pub closed spec fn spec_keyboard(&self) -> Keyboard {
        self.keyboard
    }

    pub closed spec fn spec_mouse(&self) -> Mouse {
        self.mouse
    }

    pub open spec fn wf(&self) -> bool {
        self.spec_keyboard().wf() && self.spec_mouse().wf()
    }

    pub fn new() -> (r: Self)
        ensures
            r.wf(),
    {
        InputDevices { keyboard: Keyboard::new(), mouse: Mouse::new() }
    }

    /// Forgets last frame's actions on every device.
    pub fn new_frame(&mut self)
        requires
            old(self).wf(),
        ensures
            final(self).wf(),
            forall|i: int| 0 <= i < keyboard::KEY_COUNT ==>
                final(self).spec_keyboard().view()[i] == KeyAction::Idle,
            forall|i: int| 0 <= i < mouse::BUTTON_COUNT ==>
                final(self).spec_mouse().view()[i] == ButtonAction::Idle,
    {
        self.keyboard.new_frame();
        self.mouse.new_frame();
    }
}

impl Default for InputDevices {
    fn default() -> (r: Self)
        ensures
            r.wf(),
    {
        InputDevices::new()
    }
}

impl InputProcessor<KeyEvent> for InputDevices {
    fn process(&mut self, event: KeyEvent)
        ensures
            old(self).wf() ==> {
                &&& final(self).wf()
                &&& final(self).spec_keyboard().view() == old(self).spec_keyboard().view()
                    .update(keyboard::spec_key_index(event.key), event.action)
                &&& final(self).spec_mouse() == old(self).spec_mouse()
            },
    {
        if self.keyboard.key_count_ok() {
            self.keyboard.process(event);
        }
    }
}

impl InputCheck<Key, KeyAction> for InputDevices {
    fn check(&self, key: Key) -> (r: KeyAction)
        ensures
            self.wf() ==> r == self.spec_keyboard().view()[keyboard::spec_key_index(key)],
    {
        if self.keyboard.key_count_ok() {
            self.keyboard.check(key)
        } else {
            KeyAction::Idle
        }
    }
}

impl InputProcessor<MouseButtonEvent> for InputDevices {
    fn process(&mut self, event: MouseButtonEvent)
        ensures
            old(self).wf() ==> {
                &&& final(self).wf()
                &&& final(self).spec_mouse().view() == old(self).spec_mouse().view()
                    .update(mouse::spec_button_index(event.button), event.action)
                &&& final(self).spec_keyboard() == old(self).spec_keyboard()
            },
    {
        if self.mouse.button_count_ok() {
            self.mouse.process(event);
        }
    }
}

impl InputCheck<Button, ButtonAction> for InputDevices {
    fn check(&self, button: Button) -> (r: ButtonAction)
        ensures
            self.wf() ==> r == self.spec_mouse().view()[mouse::spec_button_index(button)],
    {
        if self.mouse.button_count_ok() {
            self.mouse.check(button)
        } else {
            ButtonAction::Idle
        }
    }
}

} // verus!
