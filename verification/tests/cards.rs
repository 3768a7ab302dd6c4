use blackjack::game::card::{is_pack, pack, Card, CardNumber, Hand, Suit};
use blackjack::game::style::{decimal, Span, Tint};

fn ranks() -> [CardNumber; 13] {
    [
    CardNumber::Ace,
    CardNumber::Two,
    CardNumber::Three,
    CardNumber::Four,
    CardNumber::Five,
    CardNumber::Six,
    CardNumber::Seven,
    CardNumber::Eight,
    CardNumber::Nine,
    CardNumber::Ten,
    CardNumber::Jack,
    CardNumber::Queen,
    CardNumber::King,
    ]
}

fn suits() -> [Suit; 4] {
    [Suit::Clubs, Suit::Diamonds, Suit::Spades, Suit::Hearts]
}

fn hand_of(ranks: &[CardNumber]) -> Hand {
    let mut hand = Hand::new();
    for rank in ranks {
        hand.add_card(Card(*rank, Suit::Spades));
    }
    hand
}

#[test]
fn pack_has_fifty_two_cards() {
    assert_eq!(pack().len(), 52);
}

#[test]
fn pack_runs_through_the_ranks_suit_by_suit() {
    let cards = pack();
    for (s, suit) in suits().iter().enumerate() {
        for (r, rank) in ranks().iter().enumerate() {
            assert_eq!(cards[13 * s + r], Card(*rank, *suit));
        }
    }
    assert_eq!(cards[0], Card(CardNumber::Ace, Suit::Clubs));
    assert_eq!(cards[13], Card(CardNumber::Ace, Suit::Diamonds));
    assert_eq!(cards[51], Card(CardNumber::King, Suit::Hearts));
}

#[test]
fn pack_holds_no_card_twice() {
    let cards = pack();
    for i in 0..cards.len() {
        for j in (i + 1)..cards.len() {
            assert_ne!(cards[i], cards[j]);
        }
    }
}

#[test]
fn pack_is_the_same_every_time() {
    assert_eq!(pack(), pack());
}

#[test]
fn base_points_of_every_rank() {
    let expected: [u8; 13] = [11, 2, 3, 4, 5, 6, 7, 8, 9, 10, 10, 10, 10];
    for (rank, points) in ranks().iter().zip(expected.iter()) {
        assert_eq!(rank.base_points(), *points);
    }
}

#[test]
fn empty_hand_has_no_cards_and_no_points() {
    let hand = Hand::new();
    assert!(hand.cards.is_empty());
    assert_eq!(hand.points(), 0);
}

#[test]
fn add_card_keeps_dealing_order() {
    let mut hand = Hand::new();
    hand.add_card(Card(CardNumber::Seven, Suit::Hearts));
    hand.add_card(Card(CardNumber::Two, Suit::Clubs));
    hand.add_card(Card(CardNumber::Seven, Suit::Diamonds));
    assert_eq!(
        hand.cards,
        vec![
            Card(CardNumber::Seven, Suit::Hearts),
            Card(CardNumber::Two, Suit::Clubs),
            Card(CardNumber::Seven, Suit::Diamonds),
        ]
    );
    assert_eq!(hand.points(), 16);
}

#[test]
fn lone_ace_counts_eleven() {
    assert_eq!(hand_of(&[CardNumber::Ace]).points(), 11);
}

#[test]
fn second_ace_counts_one() {
    assert_eq!(hand_of(&[CardNumber::Ace, CardNumber::Ace]).points(), 12);
}

#[test]
fn king_then_ace_is_twenty_one() {
    assert_eq!(hand_of(&[CardNumber::King, CardNumber::Ace]).points(), 21);
}

#[test]
fn ace_counts_eleven_up_to_a_total_of_ten() {
    assert_eq!(hand_of(&[CardNumber::Four, CardNumber::Six, CardNumber::Ace]).points(), 21);
    assert_eq!(hand_of(&[CardNumber::Five, CardNumber::Six, CardNumber::Ace]).points(), 12);
}

#[test]
fn ace_already_counted_is_not_revalued() {
    assert_eq!(hand_of(&[CardNumber::Ace, CardNumber::King, CardNumber::King]).points(), 31);
    assert_eq!(hand_of(&[CardNumber::King, CardNumber::King, CardNumber::Ace]).points(), 21);
    assert_eq!(hand_of(&[CardNumber::Ace, CardNumber::Ace, CardNumber::King]).points(), 22);
}

#[test]
fn suit_carries_no_points() {
    for suit in suits().iter() {
        let mut hand = Hand::new();
        hand.add_card(Card(CardNumber::Nine, *suit));
        hand.add_card(Card(CardNumber::Queen, *suit));
        assert_eq!(hand.points(), 19);
    }
}

#[test]
fn whole_suit_in_rank_order_scores_ninety_five() {
    let hand = hand_of(&ranks());
    assert_eq!(hand.points(), 11 + 2 + 3 + 4 + 5 + 6 + 7 + 8 + 9 + 10 + 10 + 10 + 10);
}

#[test]
fn is_pack_accepts_any_order() {
    let mut cards = pack();
    assert!(is_pack(&cards));
    cards.reverse();
    assert!(is_pack(&cards));
    cards.swap(3, 40);
    assert!(is_pack(&cards));
}

#[test]
fn is_pack_rejects_a_short_pile() {
    let mut cards = pack();
    cards.pop();
    assert!(!is_pack(&cards));
    assert!(!is_pack(&Vec::new()));
}

#[test]
fn is_pack_rejects_a_repeated_card() {
    let mut cards = pack();
    cards[7] = cards[20];
    assert!(!is_pack(&cards));
}

#[test]
fn is_pack_rejects_a_long_pile() {
    let mut cards = pack();
    cards.push(Card(CardNumber::Ace, Suit::Clubs));
    assert!(!is_pack(&cards));
}

#[test]
fn rank_symbols_are_two_wide() {
    let expected = [" A", " 2", " 3", " 4", " 5", " 6", " 7", " 8", " 9", "10", " J", " Q", " K"];
    for (rank, text) in ranks().iter().zip(expected.iter()) {
        assert_eq!(rank.symbol(), *text);
    }
}

#[test]
fn suit_symbols_and_colours() {
    assert_eq!(Suit::Diamonds.symbol(), "♦");
    assert_eq!(Suit::Clubs.symbol(), "♣");
    assert_eq!(Suit::Hearts.symbol(), "♥");
    assert_eq!(Suit::Spades.symbol(), "♠");
    assert_eq!(Suit::Diamonds.tint(), Tint::Red);
    assert_eq!(Suit::Hearts.tint(), Tint::Red);
    assert_eq!(Suit::Clubs.tint(), Tint::White);
    assert_eq!(Suit::Spades.tint(), Tint::White);
}

#[test]
fn card_is_shown_in_its_suit_colour() {
    assert_eq!(
        Card(CardNumber::Ace, Suit::Diamonds).span(),
        Span { tint: Tint::Red, bold: false, text: String::from(" A ♦") }
    );
    assert_eq!(
        Card(CardNumber::Ten, Suit::Spades).span(),
        Span { tint: Tint::White, bold: false, text: String::from("10 ♠") }
    );
}

#[test]
fn hand_spans_put_a_space_between_cards() {
    assert_eq!(Hand::new().spans(), Vec::<Span>::new());
    let mut hand = Hand::new();
    hand.add_card(Card(CardNumber::King, Suit::Hearts));
    assert_eq!(hand.spans(), vec![Card(CardNumber::King, Suit::Hearts).span()]);
    hand.add_card(Card(CardNumber::Three, Suit::Clubs));
    hand.add_card(Card(CardNumber::Ace, Suit::Spades));
    assert_eq!(
        hand.spans(),
        vec![
            Span { tint: Tint::Red, bold: false, text: String::from(" K ♥") },
            Span { tint: Tint::Plain, bold: false, text: String::from(" ") },
            Span { tint: Tint::White, bold: false, text: String::from(" 3 ♣") },
            Span { tint: Tint::Plain, bold: false, text: String::from(" ") },
            Span { tint: Tint::White, bold: false, text: String::from(" A ♠") },
        ]
    );
}

#[test]
fn hand_render_shows_name_cards_and_total() {
    let mut hand = Hand::new();
    hand.add_card(Card(CardNumber::King, Suit::Hearts));
    hand.add_card(Card(CardNumber::Ace, Suit::Spades));
    assert_eq!(
        hand.render("Dealer"),
        vec![
            vec![Span { tint: Tint::LightBlue, bold: false, text: String::from("Dealer:") }],
            vec![
                Span { tint: Tint::Plain, bold: false, text: String::from("Cards: ") },
                Span { tint: Tint::Red, bold: false, text: String::from(" K ♥") },
                Span { tint: Tint::Plain, bold: false, text: String::from(" ") },
                Span { tint: Tint::White, bold: false, text: String::from(" A ♠") },
            ],
            vec![
                Span { tint: Tint::Plain, bold: false, text: String::from("Points: ") },
                Span { tint: Tint::Blue, bold: false, text: String::from("21") },
            ],
            vec![],
        ]
    );
}

#[test]
fn empty_hand_render() {
    assert_eq!(
        Hand::new().render("You"),
        vec![
            vec![Span { tint: Tint::LightBlue, bold: false, text: String::from("You:") }],
            vec![Span { tint: Tint::Plain, bold: false, text: String::from("Cards: ") }],
            vec![
                Span { tint: Tint::Plain, bold: false, text: String::from("Points: ") },
                Span { tint: Tint::Blue, bold: false, text: String::from("0") },
            ],
            vec![],
        ]
    );
}

#[test]
fn decimal_matches_the_usual_notation() {
    for n in 0..=255u8 {
        assert_eq!(decimal(n), format!("{}", n));
    }
    assert_eq!(decimal(0), "0");
    assert_eq!(decimal(21), "21");
    assert_eq!(decimal(100), "100");
    assert_eq!(decimal(255), "255");
}

#[test]
fn span_builders() {
    assert_eq!(
        Span::plain("abc"),
        Span { tint: Tint::Plain, bold: false, text: String::from("abc") }
    );
    assert_eq!(
        Span::tinted(Tint::Green, "abc"),
        Span { tint: Tint::Green, bold: false, text: String::from("abc") }
    );
}
