//! Physical key presses and the navigation commands each widget reads from them.
use vstd::prelude::*;

verus! {

/// The key codes a prompt reacts to; every other key is `Other`.
#[derive(Debug, Clone, Copy, PartialEq, Eq, Structural)]
pub enum Key {
    Up,
    Down,
    Enter,
    Backspace,
    Char(char),
    Other,
}

/// One key press: its code and whether the control modifier was held.
#[derive(Debug, Clone, Copy, PartialEq, Eq, Structural)]
pub struct KeyPress {
    pub code: Key,
    pub ctrl: bool,
}

/// A command of the single- and multi-select widgets.
#[derive(Debug, Clone, Copy, PartialEq, Eq, Structural)]
pub enum SelectEvent {
    Up,
    Down,
    /// Space: flips the chosen flag in multi-select, ignored in single-select.
    Select,
    Enter,
    Noop,
}

/// A command of the fuzzy-filter widget.
#[derive(Debug, Clone, Copy, PartialEq, Eq, Structural)]
pub enum FuzzyEvent {
    Up,
    Down,
    FilterChar(char),
    Backspace,
    Enter,
    Noop,
}

/// Classification of a key code for the single- and multi-select widgets.
pub open spec fn select_event_of(k: Key) -> SelectEvent {
    match k {
        Key::Up => SelectEvent::Up,
        Key::Char(c) => if c == 'k' || c == 'K' {
            SelectEvent::Up
        } else if c == 'j' || c == 'J' {
            SelectEvent::Down
        } else if c == ' ' {
            SelectEvent::Select
        } else {
            SelectEvent::Noop
        },
        Key::Down => SelectEvent::Down,
        Key::Enter => SelectEvent::Enter,
        _ => SelectEvent::Noop,
    }
}

/// Classification of a key press for the fuzzy widget: with control held only
/// `k` and `j` navigate; without it characters go to the filter.
pub open spec fn fuzzy_event_of(e: KeyPress) -> FuzzyEvent {
    if e.ctrl {
        match e.code {
            Key::Char(c) => if c == 'k' {
                FuzzyEvent::Up
            } else if c == 'j' {
                FuzzyEvent::Down
            } else {
                FuzzyEvent::Noop
            },
            _ => FuzzyEvent::Noop,
        }
    } else {
        match e.code {
            Key::Enter => FuzzyEvent::Enter,
            Key::Char(c) => FuzzyEvent::FilterChar(c),
            Key::Backspace => FuzzyEvent::Backspace,
            Key::Up => FuzzyEvent::Up,
            Key::Down => FuzzyEvent::Down,
            Key::Other => FuzzyEvent::Noop,
        }
    }
}

impl From<Key> for SelectEvent {
    fn from(value: Key) -> (r: SelectEvent)
        ensures
            r == select_event_of(value),
    {
        match value {
            Key::Up | Key::Char('k') | Key::Char('K') => SelectEvent::Up,
            Key::Down | Key::Char('j') | Key::Char('J') => SelectEvent::Down,
            Key::Enter => SelectEvent::Enter,
            Key::Char(' ') => SelectEvent::Select,
            _ => SelectEvent::Noop,
        }
    }
}

impl vstd::std_specs::convert::FromSpecImpl<Key> for SelectEvent {
    open spec fn obeys_from_spec() -> bool {
        true
    }

    open spec fn from_spec(v: Key) -> SelectEvent {
        select_event_of(v)
    }
}

impl From<KeyPress> for FuzzyEvent {
    fn from(e: KeyPress) -> (r: FuzzyEvent)
        ensures
            r == fuzzy_event_of(e),
    {
        if e.ctrl {
            match e.code {
                Key::Char('k') => FuzzyEvent::Up,
                Key::Char('j') => FuzzyEvent::Down,
                _ => FuzzyEvent::Noop,
            }
        } else {
            match e.code {
                Key::Enter => FuzzyEvent::Enter,
                Key::Char(c) => FuzzyEvent::FilterChar(c),
                Key::Backspace => FuzzyEvent::Backspace,
                Key::Up => FuzzyEvent::Up,
                Key::Down => FuzzyEvent::Down,
                _ => FuzzyEvent::Noop,
            }
        }
    }
}

impl vstd::std_specs::convert::FromSpecImpl<KeyPress> for FuzzyEvent {
    open spec fn obeys_from_spec() -> bool {
        true
    }

    open spec fn from_spec(v: KeyPress) -> FuzzyEvent {
        fuzzy_event_of(v)
    }
}

} // verus!
