//! The search bar: a text buffer edited by key events.
use vstd::prelude::*;

use crate::input::{is_ctrl, is_ctrl_key, ButtonState, InputEvent, Key};
use crate::text::{drop_last_word, pop_char, without_last_word};

verus! {

/// What the search bar shows before anything has been typed.
pub const PLACEHOLDER: &'static str = "Search";

/// The search bar's text buffer.
pub struct Search {
    buffer: String,
    /// Whether the buffer holds typed text (otherwise the placeholder is shown).
    events_run: bool,
    /// Whether a control key is held down.
    ctrl_pressed: bool,
}

/// The state of a search bar.
pub struct SearchView {
    pub buffer: Seq<char>,
    pub dirty: bool,
    pub ctrl: bool,
}

impl View for Search {
    type V = SearchView;

    closed spec fn view(&self) -> SearchView {
        SearchView { buffer: self.buffer@, dirty: self.events_run, ctrl: self.ctrl_pressed }
    }
}

/// A search bar is dirty exactly when its buffer is not empty.
pub open spec fn search_consistent(s: SearchView) -> bool {
    s.dirty == (s.buffer.len() > 0)
}

/// The state after an edit leaves `b` in the buffer.
pub open spec fn edited(s: SearchView, b: Seq<char>) -> SearchView {
    SearchView { buffer: b, dirty: b.len() > 0, ctrl: s.ctrl }
}

/// How one event changes the search bar.
pub open spec fn search_step(s: SearchView, ev: InputEvent) -> SearchView {
    match ev {
        InputEvent::Text(t) => {
            if t@.len() > 0 && !s.ctrl {
                edited(s, s.buffer + t@)
            } else {
                s
            }
        },
        InputEvent::Button(key, state) => {
            if key == Key::Backspace && state == ButtonState::Press {
                if s.buffer.len() == 0 {
                    s
                } else if s.ctrl {
                    edited(s, without_last_word(s.buffer))
                } else {
                    edited(s, s.buffer.drop_last())
                }
            } else if s.ctrl && state == ButtonState::Press {
                if key == Key::K {
                    edited(s, Seq::empty())
                } else {
                    s
                }
            } else if is_ctrl_key(key) {
                SearchView { buffer: s.buffer, dirty: s.dirty, ctrl: state == ButtonState::Press }
            } else {
                s
            }
        },
        InputEvent::Other => s,
    }
}

/// The text the search bar displays.
pub open spec fn shown_text(s: SearchView) -> Seq<char> {
    if s.dirty {
        s.buffer
    } else {
        PLACEHOLDER@
    }
}

/// A plain backspace key press.
pub open spec fn backspace_press() -> InputEvent {
    InputEvent::Button(Key::Backspace, ButtonState::Press)
}

/// The state after `n` plain backspace presses.
pub open spec fn backspaced(s: SearchView, n: nat) -> SearchView
    decreases n,
{
    if n == 0 {
        s
    } else {
        search_step(backspaced(s, (n - 1) as nat), backspace_press())
    }
}

proof fn lemma_backspaced_prefix(s: SearchView, n: nat)
    requires
        search_consistent(s),
        !s.ctrl,
        n <= s.buffer.len(),
    ensures
        backspaced(s, n) == edited(s, s.buffer.take(s.buffer.len() - n)),
    decreases n,
{
    if n == 0 {
        assert(s.buffer.take(s.buffer.len() as int) == s.buffer);
    } else {
        lemma_backspaced_prefix(s, (n - 1) as nat);
        let prev = s.buffer.take(s.buffer.len() - (n - 1));
        assert(prev.drop_last() == s.buffer.take(s.buffer.len() - n));
    }
}

/// Deleting characters one by one from a non-empty buffer until it is empty leaves the
/// search bar clean again, showing the placeholder.
pub proof fn lemma_backspace_to_placeholder(s: SearchView)
    requires
        search_consistent(s),
        !s.ctrl,
        s.buffer.len() > 0,
    ensures
        backspaced(s, s.buffer.len()).buffer.len() == 0,
        !backspaced(s, s.buffer.len()).dirty,
        shown_text(backspaced(s, s.buffer.len())) == PLACEHOLDER@,
{
    lemma_backspaced_prefix(s, s.buffer.len());
}

impl Search {
    pub open spec fn wf(&self) -> bool {
        search_consistent(self@)
    }

    pub fn new() -> (r: Self)
        ensures
            r.wf(),
            r@.buffer.len() == 0,
            !r@.dirty,
            !r@.ctrl,
    {
        Search { buffer: String::new(), events_run: false, ctrl_pressed: false }
    }

    /// The typed text.
    pub fn buffer(&self) -> (r: &str)
        ensures
            r@ == self@.buffer,
    {
        self.buffer.as_str()
    }

    /// The text to display: the buffer once something was typed, else the placeholder.
    pub fn display_text(&self) -> (r: &str)
        ensures
            r@ == shown_text(self@),
    {
        if self.events_run {
            self.buffer.as_str()
        } else {
            PLACEHOLDER
        }
    }

    /// Whether anything has been typed; only then are the buffer and the cursor drawn.
    pub fn shows_cursor(&self) -> (r: bool)
        ensures
            r == self@.dirty,
    {
        self.events_run
    }

    /// Applies one input event to the buffer.
    pub fn handle_event(&mut self, ev: &InputEvent)
        requires
            old(self).wf(),
        ensures
            final(self).wf(),
            final(self)@ == search_step(old(self)@, *ev),
    {
        match ev {
            InputEvent::Text(t) => {
                if !t.as_str().is_empty() && !self.ctrl_pressed {
                    self.buffer.append(t.as_str());
                    self.events_run = true;
                }
            },
            InputEvent::Button(key, state) => {
                if *key == Key::Backspace && *state == ButtonState::Press {
                    if !self.buffer.as_str().is_empty() {
                        if self.ctrl_pressed {
                            self.buffer = drop_last_word(self.buffer.as_str());
                        } else {
                            pop_char(&mut self.buffer);
                        }
                        self.events_run = !self.buffer.as_str().is_empty();
                    }
                } else if self.ctrl_pressed && *state == ButtonState::Press {
                    if *key == Key::K {
                        self.buffer = String::new();
                        self.events_run = false;
                    }
                } else if is_ctrl(*key) {
                    self.ctrl_pressed = *state == ButtonState::Press;
                }
            },
            InputEvent::Other => {},
        }
    }
}

} // verus!
