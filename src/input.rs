//! Keyboard input as the launcher sees it.
use vstd::prelude::*;

verus! {

/// The keys the launcher reacts to; every other key is `Other`.
#[derive(Clone, Copy, Debug, PartialEq, Eq, Structural)]
pub enum Key {
    Backspace,
    Return,
    Up,
    Down,
    K,
    N,
    P,
    LCtrl,
    RCtrl,
    Other,
}

/// Whether a key went down or came up.
#[derive(Clone, Copy, Debug, PartialEq, Eq, Structural)]
pub enum ButtonState {
    Press,
    Release,
}

/// One input event.
#[derive(Debug)]
pub enum InputEvent {
    /// Decoded text to insert.
    Text(String),
    /// A key changed state.
    Button(Key, ButtonState),
    /// Anything else (mouse, focus, resize, ...).
    Other,
}

/// A control key.
pub open spec fn is_ctrl_key(k: Key) -> bool {
    k == Key::LCtrl || k == Key::RCtrl
}

pub fn is_ctrl(k: Key) -> (r: bool)
    ensures
        r == is_ctrl_key(k),
{
    k == Key::LCtrl || k == Key::RCtrl
}

} // verus!
