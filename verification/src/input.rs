//! Key bindings: which key asks for which action.

use vstd::prelude::*;

verus! {

/// A key press, reduced to what the bindings tell apart.
#[derive(Copy, Clone, Debug, PartialEq, Eq, Structural)]
pub enum Key {
    Char(char),
    Left,
    Right,
    Up,
    Down,
    Esc,
    Other,
}

/// What a key press asks of the game.
#[derive(Copy, Clone, Debug, PartialEq, Eq, Structural)]
pub enum Action {
    Quit,
    Left,
    Right,
    SoftDrop,
    RotateCw,
    RotateCcw,
    HardDrop,
    Ignore,
}

/// The bindings. `q` and Escape quit; the arrows and `a`, `d`, `s` move;
/// Up, `w` and `k` turn clockwise, `j` counter-clockwise; Space drops; `c`
/// with Control held quits. The letter bindings come first, so Control
/// changes nothing for any key but `c`.
pub open spec fn binding(key: Key, ctrl: bool) -> Action {
    match key {
        Key::Esc => Action::Quit,
        Key::Left => Action::Left,
        Key::Right => Action::Right,
        Key::Down => Action::SoftDrop,
        Key::Up => Action::RotateCw,
        Key::Other => Action::Ignore,
        Key::Char(c) => if c == 'q' {
            Action::Quit
        } else if c == 'a' {
            Action::Left
        } else if c == 'd' {
            Action::Right
        } else if c == 's' {
            Action::SoftDrop
        } else if c == 'w' || c == 'k' {
            Action::RotateCw
        } else if c == 'j' {
            Action::RotateCcw
        } else if c == ' ' {
            Action::HardDrop
        } else if c == 'c' && ctrl {
            Action::Quit
        } else {
            Action::Ignore
        },
    }
}

/// Maps a key press, with the state of the Control modifier, to its action.
pub fn decode_key(key: Key, ctrl: bool) -> (a: Action)
    ensures
        a == binding(key, ctrl),
{
    match key {
        Key::Char('q') | Key::Esc => Action::Quit,
        Key::Left | Key::Char('a') => Action::Left,
        Key::Right | Key::Char('d') => Action::Right,
        Key::Down | Key::Char('s') => Action::SoftDrop,
        Key::Up | Key::Char('w') | Key::Char('k') => Action::RotateCw,
        Key::Char('j') => Action::RotateCcw,
        Key::Char(' ') => Action::HardDrop,
        Key::Char('c') if ctrl => Action::Quit,
        _ => Action::Ignore,
    }
}

} // verus!
