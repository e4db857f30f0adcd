use vstd::prelude::*;

verus! {

/// A key pressed by the user.
#[derive(Clone, Copy, Debug, PartialEq, Eq, Structural)]
pub enum Key {
    Enter,
    Esc,
    Left,
    Right,
    Up,
    Down,
    Char(char),
    Ctrl(char),
    Unknown,
}

/// Keys that end the program: Esc, `q` and Ctrl-C.
pub open spec fn is_exit_key(k: Key) -> bool {
    k == Key::Esc || k == Key::Char('q') || k == Key::Ctrl('c')
}

impl Key {
    /// Whether this key ends the program.
    pub fn is_exit(&self) -> (r: bool)
        ensures
            r == is_exit_key(*self),
    {
        match self {
            Key::Esc => true,
            Key::Char(c) => *c == 'q',
            Key::Ctrl(c) => *c == 'c',
            _ => false,
        }
    }

    /// Whether this is the right arrow.
    pub fn is_right_arrow(&self) -> (r: bool)
        ensures
            r == (*self == Key::Right),
    {
        match self {
            Key::Right => true,
            _ => false,
        }
    }

    /// Whether this is the left arrow.
    pub fn is_left_arrow(&self) -> (r: bool)
        ensures
            r == (*self == Key::Left),
    {
        match self {
            Key::Left => true,
            _ => false,
        }
    }

    /// Whether this is the down arrow.
    pub fn is_down_arrow(&self) -> (r: bool)
        ensures
            r == (*self == Key::Down),
    {
        match self {
            Key::Down => true,
            _ => false,
        }
    }

    /// Whether this key was not recognised (a tick is treated as one).
    pub fn is_unknown(&self) -> (r: bool)
        ensures
            r == (*self == Key::Unknown),
    {
        match self {
            Key::Unknown => true,
            _ => false,
        }
    }
}

/// What the input source hands the main loop: a key, or the tick of the frame clock.
#[derive(Clone, Copy, Debug, PartialEq, Eq, Structural)]
pub enum InputEvent {
    Input(Key),
    Tick,
}

} // verus!
