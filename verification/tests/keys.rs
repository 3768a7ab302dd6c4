use blackjack::game::Input;
use blackjack::keys::{command, Command, Key};

#[test]
fn quitting_keys() {
    assert_eq!(command(Key::Esc), Command::Quit);
    assert_eq!(command(Key::Char('q')), Command::Quit);
    assert_eq!(command(Key::Char('Q')), Command::Quit);
    assert_eq!(command(Key::Ctrl('c')), Command::Quit);
}

#[test]
fn space_and_enter_continue() {
    assert_eq!(command(Key::Char(' ')), Command::Feed(Input::Continue));
    assert_eq!(command(Key::Char('\n')), Command::Feed(Input::Continue));
}

#[test]
fn arrows_move_the_highlight() {
    assert_eq!(command(Key::Up), Command::Feed(Input::Up));
    assert_eq!(command(Key::Down), Command::Feed(Input::Down));
}

#[test]
fn other_keys_are_ignored() {
    assert_eq!(command(Key::Other), Command::Ignore);
    assert_eq!(command(Key::Char('x')), Command::Ignore);
    assert_eq!(command(Key::Char('c')), Command::Ignore);
    assert_eq!(command(Key::Ctrl('q')), Command::Ignore);
    assert_eq!(command(Key::Ctrl('C')), Command::Ignore);
    assert_eq!(command(Key::Char('\r')), Command::Ignore);
}
