//! Cards, the fifty-two card pack, and hands with their point totals.

use crate::game::style::{
    decimal, decimal_text, page, pieces, pieces_of_push, plain, tinted, Piece, Span, Tint,
};
use vstd::prelude::*;
use vstd::seq_lib::{to_multiset_contains, to_multiset_len};

verus! {

/// The thirteen ranks, in pack order.
#[derive(Debug, Clone, Copy, PartialEq, Eq, Structural)]
pub enum CardNumber {
    Ace,
    Two,
    Three,
    Four,
    Five,
    Six,
    Seven,
    Eight,
    Nine,
    Ten,
    Jack,
    Queen,
    King,
}

/// The four suits, in pack order.
#[derive(Debug, Clone, Copy, PartialEq, Eq, Structural)]
pub enum Suit {
    Clubs,
    Diamonds,
    Spades,
    Hearts,
}

/// A playing card: a rank and a suit.
#[derive(Debug, Clone, Copy, PartialEq, Eq, Structural)]
pub struct Card(pub CardNumber, pub Suit);

impl CardNumber {
    /// The place of a rank among the thirteen, Ace first.
    pub open spec fn ordinal(self) -> int {
        match self {
            CardNumber::Ace => 0,
            CardNumber::Two => 1,
            CardNumber::Three => 2,
            CardNumber::Four => 3,
            CardNumber::Five => 4,
            CardNumber::Six => 5,
            CardNumber::Seven => 6,
            CardNumber::Eight => 7,
            CardNumber::Nine => 8,
            CardNumber::Ten => 9,
            CardNumber::Jack => 10,
            CardNumber::Queen => 11,
            CardNumber::King => 12,
        }
    }

    /// The rank that stands at place `i`; King for any place past the twelfth.
    pub open spec fn at(i: int) -> CardNumber {
        if i <= 0 {
            CardNumber::Ace
        } else if i == 1 {
            CardNumber::Two
        } else if i == 2 {
            CardNumber::Three
        } else if i == 3 {
            CardNumber::Four
        } else if i == 4 {
            CardNumber::Five
        } else if i == 5 {
            CardNumber::Six
        } else if i == 6 {
            CardNumber::Seven
        } else if i == 7 {
            CardNumber::Eight
        } else if i == 8 {
            CardNumber::Nine
        } else if i == 9 {
            CardNumber::Ten
        } else if i == 10 {
            CardNumber::Jack
        } else if i == 11 {
            CardNumber::Queen
        } else {
            CardNumber::King
        }
    }

    /// What a rank is worth before the Ace rule is applied: eleven for an
    /// Ace, the pip count for Two to Nine, ten for Ten and the court cards.
    pub open spec fn face_value(self) -> nat {
        match self {
            CardNumber::Ace => 11,
            CardNumber::Two => 2,
            CardNumber::Three => 3,
            CardNumber::Four => 4,
            CardNumber::Five => 5,
            CardNumber::Six => 6,
            CardNumber::Seven => 7,
            CardNumber::Eight => 8,
            CardNumber::Nine => 9,
            CardNumber::Ten | CardNumber::Jack | CardNumber::Queen | CardNumber::King => 10,
        }
    }

    /// The two characters a rank is shown as.
    pub open spec fn symbol_text(self) -> Seq<char> {
        match self {
            CardNumber::Ace => " A"@,
            CardNumber::Two => " 2"@,
            CardNumber::Three => " 3"@,
            CardNumber::Four => " 4"@,
            CardNumber::Five => " 5"@,
            CardNumber::Six => " 6"@,
            CardNumber::Seven => " 7"@,
            CardNumber::Eight => " 8"@,
            CardNumber::Nine => " 9"@,
            CardNumber::Ten => "10"@,
            CardNumber::Jack => " J"@,
            CardNumber::Queen => " Q"@,
            CardNumber::King => " K"@,
        }
    }

    /// The rank as shown, two characters wide.
    pub fn symbol(&self) -> (text: &'static str)
        ensures
            text@ == self.symbol_text(),
    {
        match self {
            CardNumber::Ace => " A",
            CardNumber::Two => " 2",
            CardNumber::Three => " 3",
            CardNumber::Four => " 4",
            CardNumber::Five => " 5",
            CardNumber::Six => " 6",
            CardNumber::Seven => " 7",
            CardNumber::Eight => " 8",
            CardNumber::Nine => " 9",
            CardNumber::Ten => "10",
            CardNumber::Jack => " J",
            CardNumber::Queen => " Q",
            CardNumber::King => " K",
        }
    }

    /// The points a rank carries before the Ace rule is applied.
    pub fn base_points(&self) -> (points: u8)
        ensures
            points == self.face_value(),
    {
        match self {
            CardNumber::Ace => 11,
            CardNumber::Two => 2,
            CardNumber::Three => 3,
            CardNumber::Four => 4,
            CardNumber::Five => 5,
            CardNumber::Six => 6,
            CardNumber::Seven => 7,
            CardNumber::Eight => 8,
            CardNumber::Nine => 9,
            CardNumber::Ten | CardNumber::Jack | CardNumber::Queen | CardNumber::King => 10,
        }
    }

    /// The place of the rank among the thirteen, Ace first.
    fn position(&self) -> (i: usize)
        ensures
            i == self.ordinal(),
    {
        match self {
            CardNumber::Ace => 0,
            CardNumber::Two => 1,
            CardNumber::Three => 2,
            CardNumber::Four => 3,
            CardNumber::Five => 4,
            CardNumber::Six => 5,
            CardNumber::Seven => 6,
            CardNumber::Eight => 7,
            CardNumber::Nine => 8,
            CardNumber::Ten => 9,
            CardNumber::Jack => 10,
            CardNumber::Queen => 11,
            CardNumber::King => 12,
        }
    }

    /// The rank at place `i` of the thirteen.
    fn nth(i: usize) -> (number: CardNumber)
        requires
            i < 13,
        ensures
            number == CardNumber::at(i as int),
    {
        if i == 0 {
            CardNumber::Ace
        } else if i == 1 {
            CardNumber::Two
        } else if i == 2 {
            CardNumber::Three
        } else if i == 3 {
            CardNumber::Four
        } else if i == 4 {
            CardNumber::Five
        } else if i == 5 {
            CardNumber::Six
        } else if i == 6 {
            CardNumber::Seven
        } else if i == 7 {
            CardNumber::Eight
        } else if i == 8 {
            CardNumber::Nine
        } else if i == 9 {
            CardNumber::Ten
        } else if i == 10 {
            CardNumber::Jack
        } else if i == 11 {
            CardNumber::Queen
        } else {
            CardNumber::King
        }
    }
}

impl Suit {
    /// The place of a suit among the four, Clubs first.
    pub open spec fn ordinal(self) -> int {
        match self {
            Suit::Clubs => 0,
            Suit::Diamonds => 1,
            Suit::Spades => 2,
            Suit::Hearts => 3,
        }
    }

    /// The suit that stands at place `i`; Hearts for any place past the third.
    pub open spec fn at(i: int) -> Suit {
        if i <= 0 {
            Suit::Clubs
        } else if i == 1 {
            Suit::Diamonds
        } else if i == 2 {
            Suit::Spades
        } else {
            Suit::Hearts
        }
    }

    /// The sign a suit is shown as.
    pub open spec fn symbol_text(self) -> Seq<char> {
        match self {
            Suit::Diamonds => "\u{2666}"@,
            Suit::Clubs => "\u{2663}"@,
            Suit::Hearts => "\u{2665}"@,
            Suit::Spades => "\u{2660}"@,
        }
    }

    /// The colour a suit is shown in: red for Diamonds and Hearts, white for
    /// Clubs and Spades.
    pub open spec fn colour(self) -> Tint {
        match self {
            Suit::Diamonds | Suit::Hearts => Tint::Red,
            Suit::Clubs | Suit::Spades => Tint::White,
        }
    }

    /// The suit as shown.
    pub fn symbol(&self) -> (text: &'static str)
        ensures
            text@ == self.symbol_text(),
    {
        match self {
            Suit::Diamonds => "\u{2666}",
            Suit::Clubs => "\u{2663}",
            Suit::Hearts => "\u{2665}",
            Suit::Spades => "\u{2660}",
        }
    }

    /// The colour the suit is shown in.
    pub fn tint(&self) -> (tint: Tint)
        ensures
            tint == self.colour(),
    {
        match self {
            Suit::Diamonds | Suit::Hearts => Tint::Red,
            Suit::Clubs | Suit::Spades => Tint::White,
        }
    }

    /// The place of the suit among the four, Clubs first.
    fn position(&self) -> (i: usize)
        ensures
            i == self.ordinal(),
    {
        match self {
            Suit::Clubs => 0,
            Suit::Diamonds => 1,
            Suit::Spades => 2,
            Suit::Hearts => 3,
        }
    }

    /// The suit at place `i` of the four.
    fn nth(i: usize) -> (suit: Suit)
        requires
            i < 4,
        ensures
            suit == Suit::at(i as int),
    {
        if i == 0 {
            Suit::Clubs
        } else if i == 1 {
            Suit::Diamonds
        } else if i == 2 {
            Suit::Spades
        } else {
            Suit::Hearts
        }
    }
}

impl Card {
    /// The place of a card in the pack: suits in order, and within a suit the
    /// ranks in order.
    pub open spec fn place(self) -> int {
        13 * self.1.ordinal() + self.0.ordinal()
    }

    /// The card that stands at place `i` of the pack.
    pub open spec fn at(i: int) -> Card {
        Card(CardNumber::at(i % 13), Suit::at(i / 13))
    }

    /// A card as shown: rank, a space and the suit's sign, in the suit's
    /// colour.
    pub open spec fn piece(self) -> Piece {
        tinted(self.1.colour(), self.0.symbol_text() + " "@ + self.1.symbol_text())
    }

    /// The card as shown.
    pub fn span(&self) -> (span: Span)
        ensures
            span@ == self.piece(),
    {
        Span {
            tint: self.1.tint(),
            bold: false,
            text: String::from_str(self.0.symbol()).concat(" ").concat(self.1.symbol()),
        }
    }

    /// The place of the card in the pack.
    fn position(&self) -> (i: usize)
        ensures
            i == self.place(),
            i < 52,
    {
        13 * self.1.position() + self.0.position()
    }
}

/// The pack: every rank crossed with every suit, fifty-two cards in a fixed
/// order.
pub open spec fn full_pack() -> Seq<Card> {
    Seq::new(52, |i: int| Card::at(i))
}

/// The total of a hand that stood at `total` once a card of rank `number`
/// has joined it. An Ace counts eleven unless that would take the total past
/// twenty-one, in which case it counts one.
pub open spec fn score_after(total: nat, number: CardNumber) -> nat {
    if number == CardNumber::Ace && total + 11 > 21 {
        total + 1
    } else {
        total + number.face_value()
    }
}

/// The total of a hand, its cards taken in the order in which they arrived.
pub open spec fn score(cards: Seq<Card>) -> nat
    decreases cards.len(),
{
    if cards.len() == 0 {
        0
    } else {
        score_after(score(cards.drop_last()), cards.last().0)
    }
}

/// Every card adds at least one point and at most eleven.
pub proof fn score_grows(cards: Seq<Card>, card: Card)
    ensures
        score(cards.push(card)) == score_after(score(cards), card.0),
        score(cards) + 1 <= score(cards.push(card)) <= score(cards) + 11,
{
    assert(cards.push(card).drop_last() =~= cards);
}

/// A hand never holds more cards than it has points.
pub proof fn score_counts_cards(cards: Seq<Card>)
    ensures
        cards.len() <= score(cards),
    decreases cards.len(),
{
    if cards.len() > 0 {
        score_counts_cards(cards.drop_last());
    }
}

/// An empty hand is worth nothing, a hand of one card at most eleven, a hand
/// of two at most twenty-one.
pub proof fn short_hand_scores(cards: Seq<Card>)
    ensures
        cards.len() == 0 ==> score(cards) == 0,
        cards.len() == 1 ==> 1 <= score(cards) <= 11,
        cards.len() == 2 ==> 2 <= score(cards) <= 21,
{
    if cards.len() == 1 {
        assert(score(cards.drop_last()) == 0);
    } else if cards.len() == 2 {
        let first = cards.drop_last();
        assert(score(first.drop_last()) == 0);
        assert(1 <= score(first) <= 11);
    }
}

/// The total never falls as cards arrive: a hand is worth at least as much
/// as any of its opening runs.
pub proof fn score_of_prefix(cards: Seq<Card>, n: int)
    requires
        0 <= n <= cards.len(),
    ensures
        score(cards.take(n)) <= score(cards),
    decreases cards.len(),
{
    if n == cards.len() {
        assert(cards.take(n) =~= cards);
    } else {
        score_of_prefix(cards.drop_last(), n);
        assert(cards.drop_last().take(n) =~= cards.take(n));
    }
}

/// The pack holds each card at its own place, and so exactly once.
pub proof fn pack_is_complete(card: Card)
    ensures
        full_pack().len() == 52,
        0 <= card.place() < 52,
        full_pack()[card.place()] == card,
        forall|i: int| 0 <= i < 52 && full_pack()[i] == card ==> i == card.place(),
{
    assert forall|i: int| 0 <= i < 52 && full_pack()[i] == card implies i == card.place() by {
        assert(Card::at(i).place() == i);
    }
}

/// Each card occurs exactly once in the pack.
pub proof fn pack_holds_each_card_once(card: Card)
    ensures
        full_pack().to_multiset().count(card) == 1,
{
    let cards = full_pack();
    assert forall|i: int, j: int| 0 <= i < 52 && 0 <= j < 52 && i != j implies cards[i]
        != cards[j] by {
        pack_is_complete(cards[i]);
    }
    pack_is_complete(card);
    assert(cards.contains(card));
    each_card_once(cards, card);
}

/// In a pile without a repeated card, a card that occurs at all occurs once.
proof fn each_card_once(cards: Seq<Card>, card: Card)
    requires
        cards.no_duplicates(),
        cards.contains(card),
    ensures
        cards.to_multiset().count(card) == 1,
{
    cards.lemma_multiset_has_no_duplicates();
    to_multiset_contains(cards, card);
}

/// The cards of a hand as shown: one after the other in dealing order, a
/// single space between neighbours.
pub open spec fn hand_pieces(cards: Seq<Card>) -> Seq<Piece>
    decreases cards.len(),
{
    if cards.len() == 0 {
        Seq::empty()
    } else if cards.len() == 1 {
        seq![cards[0].piece()]
    } else {
        hand_pieces(cards.drop_last()) + seq![plain(" "@), cards.last().piece()]
    }
}

/// A hand as shown under a name: the name, the cards, the total, and an
/// empty line.
pub open spec fn hand_lines(name: Seq<char>, cards: Seq<Card>) -> Seq<Seq<Piece>> {
    seq![
        seq![tinted(Tint::LightBlue, name + ":"@)],
        seq![plain("Cards: "@)] + hand_pieces(cards),
        seq![plain("Points: "@), tinted(Tint::Blue, decimal_text(score(cards)))],
        Seq::empty(),
    ]
}

/// The cards of one party, in the order in which they were dealt.
pub struct Hand {
    pub cards: Vec<Card>,
}

impl Hand {
    /// An empty hand.
    pub fn new() -> (hand: Hand)
        ensures
            hand.cards@ == Seq::<Card>::empty(),
    {
        Hand { cards: Vec::with_capacity(11) }
    }

    /// Puts a card at the end of the hand.
    pub fn add_card(&mut self, card: Card)
        ensures
            final(self).cards@ == old(self).cards@.push(card),
    {
        self.cards.push(card);
    }

    /// The cards as shown, in dealing order with a space between neighbours.
    pub fn spans(&self) -> (line: Vec<Span>)
        ensures
            pieces(line@) == hand_pieces(self.cards@),
    {
        let mut line: Vec<Span> = Vec::new();
        let mut i: usize = 0;
        assert(pieces(line@) =~= hand_pieces(self.cards@.take(0)));
        while i < self.cards.len()
            invariant
                i <= self.cards.len(),
                pieces(line@) == hand_pieces(self.cards@.take(i as int)),
            decreases self.cards.len() - i,
        {
            let ghost before = line@;
            let ghost dealt = self.cards@.take(i + 1);
            proof {
                assert(dealt.drop_last() =~= self.cards@.take(i as int));
                assert(dealt.last() == self.cards@[i as int]);
            }
            if i > 0 {
                let gap = Span::plain(" ");
                proof {
                    pieces_of_push(line@, gap);
                }
                line.push(gap);
            }
            let shown = self.cards[i].span();
            proof {
                pieces_of_push(line@, shown);
            }
            line.push(shown);
            assert(pieces(line@) =~= hand_pieces(dealt));
            i += 1;
        }
        proof {
            assert(self.cards@.take(i as int) =~= self.cards@);
        }
        line
    }

    /// The hand as shown under `name`: the name, the cards, the total, and
    /// an empty line.
    pub fn render(&self, name: &str) -> (lines: Vec<Vec<Span>>)
        requires
            score(self.cards@) <= u8::MAX,
        ensures
            page(lines@) == hand_lines(name@, self.cards@),
    {
        let title = Span {
            tint: Tint::LightBlue,
            bold: false,
            text: String::from_str(name).concat(":"),
        };
        let mut heading: Vec<Span> = Vec::new();
        heading.push(title);
        let mut cards: Vec<Span> = Vec::new();
        cards.push(Span::plain("Cards: "));
        let mut shown = self.spans();
        cards.append(&mut shown);
        let mut total: Vec<Span> = Vec::new();
        total.push(Span::plain("Points: "));
        total.push(Span { tint: Tint::Blue, bold: false, text: decimal(self.points()) });
        let mut lines: Vec<Vec<Span>> = Vec::new();
        lines.push(heading);
        lines.push(cards);
        lines.push(total);
        lines.push(Vec::new());
        proof {
            let shown_as = hand_lines(name@, self.cards@);
            assert(pieces(lines@[0]@) =~= shown_as[0]);
            assert(pieces(lines@[1]@) =~= shown_as[1]);
            assert(pieces(lines@[2]@) =~= shown_as[2]);
            assert(pieces(lines@[3]@) =~= shown_as[3]);
            assert(page(lines@) =~= shown_as);
        }
        lines
    }

    /// The hand's total under the Ace rule.
    pub fn points(&self) -> (total: u8)
        requires
            score(self.cards@) <= u8::MAX,
        ensures
            total == score(self.cards@),
    {
        let mut total: u8 = 0;
        let mut i: usize = 0;
        while i < self.cards.len()
            invariant
                i <= self.cards.len(),
                total == score(self.cards@.take(i as int)),
                score(self.cards@) <= u8::MAX,
            decreases self.cards.len() - i,
        {
            proof {
                let next = self.cards@.take(i + 1);
                assert(next.drop_last() =~= self.cards@.take(i as int));
                assert(next.last() == self.cards@[i as int]);
                score_of_prefix(self.cards@, i + 1);
            }
            let number = self.cards[i].0;
            total = match number {
                CardNumber::Ace => if total > 10 {
                    total + 1
                } else {
                    total + 11
                },
                _ => total + number.base_points(),
            };
            i += 1;
        }
        proof {
            assert(self.cards@.take(i as int) =~= self.cards@);
        }
        total
    }
}

/// The total of the first `n` cards of a pile, where it is at most `limit`.
pub(crate) fn points_within(cards: &Vec<Card>, n: usize, limit: u8) -> (total: Option<u8>)
    requires
        n <= cards@.len(),
        limit <= 200,
    ensures
        total == if score(cards@.take(n as int)) <= limit {
            Some(score(cards@.take(n as int)) as u8)
        } else {
            None
        },
{
    let mut total: u8 = 0;
    let mut i: usize = 0;
    while i < n
        invariant
            i <= n <= cards@.len(),
            limit <= 200,
            total == score(cards@.take(i as int)),
            total <= limit,
        decreases n - i,
    {
        proof {
            let next = cards@.take(i + 1);
            assert(next.drop_last() =~= cards@.take(i as int));
            assert(next.last() == cards@[i as int]);
            assert(cards@.take(n as int).take(i + 1) =~= next);
            score_of_prefix(cards@.take(n as int), i + 1);
        }
        let number = cards[i].0;
        total = match number {
            CardNumber::Ace => if total > 10 {
                total + 1
            } else {
                total + 11
            },
            _ => total + number.base_points(),
        };
        if total > limit {
            return None;
        }
        i += 1;
    }
    Some(total)
}

/// Puts a copy of each card of `cards` at the end of `pile`, in order.
pub(crate) fn extend_pile(pile: &mut Vec<Card>, cards: &Vec<Card>)
    ensures
        final(pile)@ == old(pile)@ + cards@,
{
    let mut i: usize = 0;
    while i < cards.len()
        invariant
            i <= cards@.len(),
            pile@ == old(pile)@ + cards@.take(i as int),
        decreases cards.len() - i,
    {
        pile.push(cards[i]);
        assert(pile@ =~= old(pile)@ + cards@.take(i + 1));
        i += 1;
    }
    assert(cards@.take(i as int) =~= cards@);
}

/// Builds the pack: the suits in order, and under each suit the ranks in
/// order.
pub fn pack() -> (cards: Vec<Card>)
    ensures
        cards@ == full_pack(),
{
    let mut cards: Vec<Card> = Vec::with_capacity(52);
    let mut s: usize = 0;
    while s < 4
        invariant
            s <= 4,
            cards@ =~= Seq::new((13 * s) as nat, |i: int| Card::at(i)),
        decreases 4 - s,
    {
        let suit = Suit::nth(s);
        let mut n: usize = 0;
        while n < 13
            invariant
                s < 4,
                n <= 13,
                suit == Suit::at(s as int),
                cards@ =~= Seq::new((13 * s + n) as nat, |i: int| Card::at(i)),
            decreases 13 - n,
        {
            cards.push(Card(CardNumber::nth(n), suit));
            n += 1;
        }
        s += 1;
    }
    cards
}

/// Whether a pile is the pack in some order: every card once, none twice.
pub fn is_pack(cards: &Vec<Card>) -> (whole: bool)
    ensures
        whole == (cards@.to_multiset() == full_pack().to_multiset()),
{
    if cards.len() != 52 {
        proof {
            to_multiset_len(cards@);
            to_multiset_len(full_pack());
        }
        return false;
    }
    let mut seen: Vec<bool> = Vec::with_capacity(52);
    let mut p: usize = 0;
    while p < 52
        invariant
            p <= 52,
            seen@.len() == p,
            forall|q: int| 0 <= q < p ==> !seen@[q],
        decreases 52 - p,
    {
        seen.push(false);
        p += 1;
    }
    let mut i: usize = 0;
    while i < 52
        invariant
            i <= 52,
            cards@.len() == 52,
            seen@.len() == 52,
            forall|q: int|
                0 <= q < 52 ==> (seen@[q] <==> exists|j: int|
                    0 <= j < i && #[trigger] cards@[j].place() == q),
            forall|j: int, k: int| 0 <= j < k < i ==> cards@[j] != cards@[k],
        decreases 52 - i,
    {
        let place = cards[i].position();
        if seen[place] {
            proof {
                let j = choose|j: int| 0 <= j < i && #[trigger] cards@[j].place() == place;
                pack_is_complete(cards@[j]);
                pack_is_complete(cards@[i as int]);
                assert(cards@[j] == cards@[i as int]);
                if cards@.to_multiset() == full_pack().to_multiset() {
                    assert forall|c: Card|
                        cards@.to_multiset().contains(c) implies cards@.to_multiset().count(c)
                        == 1 by {
                        pack_holds_each_card_once(c);
                    }
                    cards@.lemma_multiset_has_no_duplicates_conv();
                }
            }
            return false;
        }
        seen.set(place, true);
        proof {
            assert forall|j: int| 0 <= j < i implies cards@[j] != cards@[i as int] by {
                if cards@[j] == cards@[i as int] {
                    assert(cards@[j].place() == place);
                }
            }
        }
        i += 1;
    }
    let mut q: usize = 0;
    while q < 52
        invariant
            q <= 52,
            cards@.len() == 52,
            seen@.len() == 52,
            forall|r: int| 0 <= r < q ==> seen@[r],
            forall|q: int|
                0 <= q < 52 ==> (seen@[q] <==> exists|j: int|
                    0 <= j < 52 && #[trigger] cards@[j].place() == q),
            forall|j: int, k: int| 0 <= j < k < 52 ==> cards@[j] != cards@[k],
        decreases 52 - q,
    {
        if !seen[q] {
            proof {
                let missing = Card::at(q as int);
                assert(missing.place() == q);
                if cards@.contains(missing) {
                    let j = choose|j: int| 0 <= j < 52 && cards@[j] == missing;
                    assert(cards@[j].place() == q);
                }
                to_multiset_contains(cards@, missing);
                pack_holds_each_card_once(missing);
            }
            return false;
        }
        q += 1;
    }
    proof {
        assert(cards@.no_duplicates());
        assert forall|c: Card| cards@.to_multiset().count(c) == full_pack().to_multiset().count(
            c,
        ) by {
            pack_is_complete(c);
            assert(seen@[c.place()]);
            let j = choose|j: int| 0 <= j < 52 && #[trigger] cards@[j].place() == c.place();
            pack_is_complete(cards@[j]);
            assert(cards@[j] == c);
            assert(cards@.contains(c));
            each_card_once(cards@, c);
            pack_holds_each_card_once(c);
        }
        assert(cards@.to_multiset() =~= full_pack().to_multiset());
    }
    true
}

} // verus!
