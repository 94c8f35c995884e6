//! Keyboard state: which action each key saw this frame.

use vstd::prelude::*;

verus! {

/// Number of distinct keys the runtime tracks.
pub const KEY_COUNT: usize = 51;

/// A key the runtime understands; anything the window backend reports
/// beyond these arrives as `Unsupported`.
#[derive(Debug, Clone, Copy, PartialEq, Eq, Structural, PartialOrd)]
pub enum Key {
    A,
    B,
    C,
    D,
    E,
    F,
    G,
    H,
    I,
    J,
    K,
    L,
    M,
    N,
    O,
    P,
    Q,
    R,
    S,
    T,
    U,
    V,
    W,
    X,
    Y,
    Z,
    LeftArrow,
    RightArrow,
    UpArrow,
    DownArrow,
    PageUp,
    PageDown,
    Home,
    End,
    Insert,
    Delete,
    Backspace,
    Space,
    Enter,
    Escape,
    KeyPadEnter,
    Tab,
    LeftShift,
    RightShift,
    LeftCtrl,
    RightCtrl,
    LeftAlt,
    RightAlt,
    LeftSuper,
    RightSuper,
    Unsupported,
}

/// Each key's position in the keyboard's state table.
pub open spec fn spec_key_index(k: Key) -> int {
    match k {
        Key::A => 0,
        Key::B => 1,
        Key::C => 2,
        Key::D => 3,
        Key::E => 4,
        Key::F => 5,
        Key::G => 6,
        Key::H => 7,
        Key::I => 8,
        Key::J => 9,
        Key::K => 10,
        Key::L => 11,
        Key::M => 12,
        Key::N => 13,
        Key::O => 14,
        Key::P => 15,
        Key::Q => 16,
        Key::R => 17,
        Key::S => 18,
        Key::T => 19,
        Key::U => 20,
        Key::V => 21,
        Key::W => 22,
        Key::X => 23,
        Key::Y => 24,
        Key::Z => 25,
        Key::LeftArrow => 26,
        Key::RightArrow => 27,
        Key::UpArrow => 28,
        Key::DownArrow => 29,
        Key::PageUp => 30,
        Key::PageDown => 31,
        Key::Home => 32,
        Key::End => 33,
        Key::Insert => 34,
        Key::Delete => 35,
        Key::Backspace => 36,
        Key::Space => 37,
        Key::Enter => 38,
        Key::Escape => 39,
        Key::KeyPadEnter => 40,
        Key::Tab => 41,
        Key::LeftShift => 42,
        Key::RightShift => 43,
        Key::LeftCtrl => 44,
        Key::RightCtrl => 45,
        Key::LeftAlt => 46,
        Key::RightAlt => 47,
        Key::LeftSuper => 48,
        Key::RightSuper => 49,
        Key::Unsupported => 50,
    }
}

/// Position of `k` in the state table.
pub fn key_index(k: Key) -> (r: usize)
    ensures
        r == spec_key_index(k),
        r < KEY_COUNT,
{
    match k {
        Key::A => 0,
        Key::B => 1,
        Key::C => 2,
        Key::D => 3,
        Key::E => 4,
        Key::F => 5,
        Key::G => 6,
        Key::H => 7,
        Key::I => 8,
        Key::J => 9,
        Key::K => 10,
        Key::L => 11,
        Key::M => 12,
        Key::N => 13,
        Key::O => 14,
        Key::P => 15,
        Key::Q => 16,
        Key::R => 17,
        Key::S => 18,
        Key::T => 19,
        Key::U => 20,
        Key::V => 21,
        Key::W => 22,
        Key::X => 23,
        Key::Y => 24,
        Key::Z => 25,
        Key::LeftArrow => 26,
        Key::RightArrow => 27,
        Key::UpArrow => 28,
        Key::DownArrow => 29,
        Key::PageUp => 30,
        Key::PageDown => 31,
        Key::Home => 32,
        Key::End => 33,
        Key::Insert => 34,
        Key::Delete => 35,
        Key::Backspace => 36,
        Key::Space => 37,
        Key::Enter => 38,
        Key::Escape => 39,
        Key::KeyPadEnter => 40,
        Key::Tab => 41,
        Key::LeftShift => 42,
        Key::RightShift => 43,
        Key::LeftCtrl => 44,
        Key::RightCtrl => 45,
        Key::LeftAlt => 46,
        Key::RightAlt => 47,
        Key::LeftSuper => 48,
        Key::RightSuper => 49,
        Key::Unsupported => 50,
    }
}

/// What happened to a key this frame.
#[derive(Debug, Clone, Copy, PartialEq, Eq, Structural)]
pub enum KeyAction {
    Idle,
    Press,
    Release,
}

impl Default for KeyAction {
    fn default() -> (r: Self)
        ensures
            r == KeyAction::Idle,
    {
        KeyAction::Idle
    }
}

/// A key together with the action it saw.
#[derive(Debug, Clone, Copy)]
pub struct KeyEvent {
    pub key: Key,
    pub action: KeyAction,
}

impl KeyEvent {
    pub fn new(key: Key, action: KeyAction) -> (r: Self)
        ensures
            r.key == key,
            r.action == action,
    {
        KeyEvent { key, action }
    }
}

/// Per-frame key states, one slot per key.
pub struct Keyboard {
    key_states: Vec<KeyAction>,
}

impl Keyboard {
    pub closed spec fn view(&self) -> Seq<KeyAction> {
        self.key_states@
    }

    pub open spec fn wf(&self) -> bool {
        self.view().len() == KEY_COUNT
    }

    pub fn new() -> (r: Self)
        ensures
            r.wf(),
            forall|i: int| 0 <= i < KEY_COUNT ==> r.view()[i] == KeyAction::Idle,
    {
        let mut key_states: Vec<KeyAction> = Vec::new();
        let mut i: usize = 0;
        while i < KEY_COUNT
            invariant
                i <= KEY_COUNT,
                key_states@.len() == i,
                forall|j: int| 0 <= j < i ==> key_states@[j] == KeyAction::Idle,
            decreases KEY_COUNT - i,
        {
            key_states.push(KeyAction::Idle);
            i += 1;
        }
        Keyboard { key_states }
    }

    /// Whether the state table has its full size; true for every
    /// keyboard this crate constructs.
    pub fn key_count_ok(&self) -> (r: bool)
        ensures
            r == self.wf(),
    {
        self.key_states.len() == KEY_COUNT
    }

    /// Forgets last frame's actions.
    pub fn new_frame(&mut self)
        requires
            old(self).wf(),
        ensures
            final(self).wf(),
            forall|i: int| 0 <= i < KEY_COUNT ==> final(self).view()[i] == KeyAction::Idle,
    {
        let mut i: usize = 0;
        while i < KEY_COUNT
            invariant
                self.wf(),
                i <= KEY_COUNT,
                forall|j: int| 0 <= j < i ==> self.view()[j] == KeyAction::Idle,
            decreases KEY_COUNT - i,
        {
            self.key_states[i] = KeyAction::Idle;
            i += 1;
        }
    }

    /// Records the event's action under its key.
    pub fn process(&mut self, event: KeyEvent)
        requires
            old(self).wf(),
        ensures
            final(self).wf(),
            final(self).view() == old(self).view().update(
                spec_key_index(event.key), event.action),
    {
        let i = key_index(event.key);
        self.key_states[i] = event.action;
    }

    /// The action recorded for `key` this frame.
    pub fn check(&self, key: Key) -> (r: KeyAction)
        requires
            self.wf(),
        ensures
            r == self.view()[spec_key_index(key)],
    {
        let i = key_index(key);
        self.key_states[i]
    }
}

impl Default for Keyboard {
    fn default() -> (r: Self)
        ensures
            r.wf(),
            forall|i: int| 0 <= i < KEY_COUNT ==> r.view()[i] == KeyAction::Idle,
    {
        Keyboard::new()
    }
}

} // verus!
