//! What the keys of the keyboard mean to the game.

use crate::game::Input;
use vstd::prelude::*;

verus! {

/// A key press, as far as the game tells keys apart.
#[derive(Debug, Clone, Copy, PartialEq, Eq, Structural)]
pub enum Key {
    Esc,
    Char(char),
    Ctrl(char),
    Up,
    Down,
    Other,
}

/// What a key press asks for.
#[derive(Debug, Clone, Copy, PartialEq, Eq, Structural)]
pub enum Command {
    /// Leave the game.
    Quit,
    /// Hand an input to the game.
    Feed(Input),
    /// Nothing: the key has no meaning.
    Ignore,
}

/// The meaning of each key. Escape, `q`, `Q` and control-C leave; space and
/// enter carry on; the two arrows move the highlight; every other key is
/// ignored.
pub open spec fn meaning(key: Key) -> Command {
    match key {
        Key::Esc => Command::Quit,
        Key::Char(c) => if c == 'q' || c == 'Q' {
            Command::Quit
        } else if c == ' ' || c == '\n' {
            Command::Feed(Input::Continue)
        } else {
            Command::Ignore
        },
        Key::Ctrl(c) => if c == 'c' {
            Command::Quit
        } else {
            Command::Ignore
        },
        Key::Up => Command::Feed(Input::Up),
        Key::Down => Command::Feed(Input::Down),
        Key::Other => Command::Ignore,
    }
}

/// Reads a key press as a command.
pub fn command(key: Key) -> (asked: Command)
    ensures
        asked == meaning(key),
{
    match key {
        Key::Esc => Command::Quit,
        Key::Char(c) => if c == 'q' || c == 'Q' {
            Command::Quit
        } else if c == ' ' || c == '\n' {
            Command::Feed(Input::Continue)
        } else {
            Command::Ignore
        },
        Key::Ctrl(c) => if c == 'c' {
            Command::Quit
        } else {
            Command::Ignore
        },
        Key::Up => Command::Feed(Input::Up),
        Key::Down => Command::Feed(Input::Down),
        Key::Other => Command::Ignore,
    }
}

} // verus!
