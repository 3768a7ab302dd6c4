use blackjack::game::card::{pack, Card, CardNumber, Suit};
use blackjack::game::style::{Span, Tint};
use blackjack::game::{Choice, Game, GameResult, Input, Stage, State};

fn plain(text: &str) -> Span {
    Span { tint: Tint::Plain, bold: false, text: String::from(text) }
}

fn tinted(tint: Tint, text: &str) -> Span {
    Span { tint, bold: false, text: String::from(text) }
}

#[test]
fn choice_labels() {
    assert_eq!(Choice::Hit.label(), "Hit");
    assert_eq!(Choice::Stand.label(), "Stand");
    assert_eq!(Choice::Surrender.label(), "Surrender");
}

#[test]
fn menu_entry_marks_the_highlighted_choice() {
    assert_eq!(Choice::Hit.entry(&Choice::Hit), vec![tinted(Tint::LightBlue, "> Hit")]);
    assert_eq!(Choice::Hit.entry(&Choice::Stand), vec![plain("- Hit")]);
    assert_eq!(
        Choice::Surrender.entry(&Choice::Surrender),
        vec![tinted(Tint::LightBlue, "> Surrender")]
    );
    assert_eq!(Choice::Stand.entry(&Choice::Surrender), vec![plain("- Stand")]);
}

#[test]
fn outcomes_are_announced_in_colour() {
    assert_eq!(GameResult::Win.announce(), tinted(Tint::Green, "You win!"));
    assert_eq!(GameResult::Lose.announce(), tinted(Tint::Red, "You lose!"));
    assert_eq!(GameResult::Tie.announce(), tinted(Tint::Yellow, "It's a tie!"));
}

#[test]
fn controls_while_choosing_show_the_menu() {
    assert_eq!(
        State::Selecting(Choice::Stand).controls(),
        vec![
            vec![plain("- Hit")],
            vec![tinted(Tint::LightBlue, "> Stand")],
            vec![plain("- Surrender")],
        ]
    );
    assert_eq!(
        State::Selecting(Choice::Hit).controls(),
        vec![
            vec![tinted(Tint::LightBlue, "> Hit")],
            vec![plain("- Stand")],
            vec![plain("- Surrender")],
        ]
    );
}

#[test]
fn controls_before_the_first_card_welcome_the_player() {
    assert_eq!(
        State::Starting(Stage::First).controls(),
        vec![vec![plain("Welcome to Blackjack!")], vec![plain("[SPACE / ENTER] Start")]]
    );
}

#[test]
fn controls_while_cards_are_dealt_ask_to_continue() {
    for state in [
        State::Starting(Stage::Second),
        State::Starting(Stage::Third),
        State::Standing,
        State::Presenting,
    ] {
        assert_eq!(state.controls(), vec![vec![plain("[SPACE / ENTER] Continue")]]);
    }
}

#[test]
fn controls_after_the_round_show_the_outcome() {
    assert_eq!(
        State::GameOver(GameResult::Tie).controls(),
        vec![
            vec![tinted(Tint::Yellow, "It's a tie!")],
            vec![plain("[SPACE / ENTER] Play again")],
            vec![plain("[ESC / Q] Quit")],
        ]
    );
    assert_eq!(
        State::GameOver(GameResult::Win).controls()[0],
        vec![tinted(Tint::Green, "You win!")]
    );
    assert_eq!(
        State::GameOver(GameResult::Lose).controls()[0],
        vec![tinted(Tint::Red, "You lose!")]
    );
}

#[test]
fn new_game_screen() {
    let game = Game::new();
    assert_eq!(
        game.render(),
        vec![
            vec![Span { tint: Tint::White, bold: true, text: String::from("BLACKJACK v0.1.0") }],
            vec![],
            vec![tinted(Tint::LightBlue, "Dealer:")],
            vec![plain("Cards: ")],
            vec![plain("Points: "), tinted(Tint::Blue, "0")],
            vec![],
            vec![tinted(Tint::LightBlue, "You:")],
            vec![plain("Cards: ")],
            vec![plain("Points: "), tinted(Tint::Blue, "0")],
            vec![],
            vec![plain("Welcome to Blackjack!")],
            vec![plain("[SPACE / ENTER] Start")],
        ]
    );
}

#[test]
fn screen_while_choosing() {
    let mut game = Game::with_deck(pack()).unwrap();
    game.advance(Input::Continue);
    game.advance(Input::Continue);
    game.advance(Input::Continue);
    game.advance(Input::Up);
    assert_eq!(game.player().cards[0], Card(CardNumber::King, Suit::Hearts));
    assert_eq!(
        game.render(),
        vec![
            vec![Span { tint: Tint::White, bold: true, text: String::from("BLACKJACK v0.1.0") }],
            vec![],
            vec![tinted(Tint::LightBlue, "Dealer:")],
            vec![plain("Cards: "), tinted(Tint::Red, " Q ♥")],
            vec![plain("Points: "), tinted(Tint::Blue, "10")],
            vec![],
            vec![tinted(Tint::LightBlue, "You:")],
            vec![
                plain("Cards: "),
                tinted(Tint::Red, " K ♥"),
                plain(" "),
                tinted(Tint::Red, " J ♥"),
            ],
            vec![plain("Points: "), tinted(Tint::Blue, "20")],
            vec![],
            vec![plain("- Hit")],
            vec![plain("- Stand")],
            vec![tinted(Tint::LightBlue, "> Surrender")],
        ]
    );
}
