//! The blackjack table and the phases a round passes through.

pub mod card;
pub mod style;

use crate::game::card::{
    extend_pile, full_pack, hand_lines, is_pack, pack, pack_holds_each_card_once, points_within,
    score, score_counts_cards, score_grows, short_hand_scores, Card, Hand,
};
use crate::game::style::{page, page_of_concat, pieces, plain, tinted, Piece, Span, Tint};
use rand::seq::SliceRandom;
use vstd::multiset::{lemma_multiset_empty_len, Multiset};
use vstd::prelude::*;
use vstd::seq_lib::{lemma_multiset_commutative, to_multiset_build, to_multiset_len};

verus! {

/// What the player can feed the table.
#[derive(Debug, Clone, Copy, PartialEq, Eq, Structural)]
pub enum Input {
    Continue,
    Up,
    Down,
}

/// The entries of the player's menu, top to bottom.
#[derive(Debug, Clone, Copy, PartialEq, Eq, Structural)]
pub enum Choice {
    Hit,
    Stand,
    Surrender,
}

/// How a round ended, seen from the player.
#[derive(Debug, Clone, Copy, PartialEq, Eq, Structural)]
pub enum GameResult {
    Win,
    Lose,
    Tie,
}

/// The three steps of the opening deal.
#[derive(Debug, Clone, Copy, PartialEq, Eq, Structural)]
pub enum Stage {
    First,
    Second,
    Third,
}

/// The phase the table is in.
#[derive(Debug, Clone, Copy, PartialEq, Eq, Structural)]
pub enum State {
    Starting(Stage),
    Presenting,
    Selecting(Choice),
    Standing,
    GameOver(GameResult),
}

impl Choice {
    /// The entry the highlight moves to on `Up`: one step up the menu, from
    /// the top entry round to the bottom one.
    pub open spec fn above(self) -> Choice {
        match self {
            Choice::Hit => Choice::Surrender,
            Choice::Stand => Choice::Hit,
            Choice::Surrender => Choice::Stand,
        }
    }

    /// The entry the highlight moves to on `Down`: one step down the menu,
    /// from the bottom entry round to the top one.
    pub open spec fn below(self) -> Choice {
        match self {
            Choice::Hit => Choice::Stand,
            Choice::Stand => Choice::Surrender,
            Choice::Surrender => Choice::Hit,
        }
    }

    /// The name of a menu entry.
    pub open spec fn label_text(self) -> Seq<char> {
        match self {
            Choice::Hit => "Hit"@,
            Choice::Stand => "Stand"@,
            Choice::Surrender => "Surrender"@,
        }
    }

    /// The entry as one line of the menu: behind `> ` and in light blue
    /// where it is the highlighted one, behind `- ` otherwise.
    pub open spec fn menu_line(self, highlighted: Choice) -> Seq<Piece> {
        if self == highlighted {
            seq![tinted(Tint::LightBlue, "> "@ + self.label_text())]
        } else {
            seq![plain("- "@ + self.label_text())]
        }
    }

    /// The name of the entry.
    pub fn label(&self) -> (text: &'static str)
        ensures
            text@ == self.label_text(),
    {
        match self {
            Choice::Hit => "Hit",
            Choice::Stand => "Stand",
            Choice::Surrender => "Surrender",
        }
    }

    /// The entry as one line of the menu.
    pub fn entry(&self, highlighted: &Choice) -> (line: Vec<Span>)
        ensures
            pieces(line@) == self.menu_line(*highlighted),
    {
        let span = if *self == *highlighted {
            Span {
                tint: Tint::LightBlue,
                bold: false,
                text: String::from_str("> ").concat(self.label()),
            }
        } else {
            Span {
                tint: Tint::Plain,
                bold: false,
                text: String::from_str("- ").concat(self.label()),
            }
        };
        line_of(span)
    }

    /// Moves the highlight one entry up.
    pub fn up(&self) -> (choice: Choice)
        ensures
            choice == self.above(),
    {
        match self {
            Choice::Hit => Choice::Surrender,
            Choice::Stand => Choice::Hit,
            Choice::Surrender => Choice::Stand,
        }
    }

    /// Moves the highlight one entry down.
    pub fn down(&self) -> (choice: Choice)
        ensures
            choice == self.below(),
    {
        match self {
            Choice::Hit => Choice::Stand,
            Choice::Stand => Choice::Surrender,
            Choice::Surrender => Choice::Hit,
        }
    }
}

/// A line that holds one span.
fn line_of(span: Span) -> (line: Vec<Span>)
    ensures
        line@ == seq![span],
        pieces(line@) == seq![span@],
{
    let mut line: Vec<Span> = Vec::new();
    line.push(span);
    assert(line@ =~= seq![span]);
    assert(pieces(line@) =~= seq![span@]);
    line
}

impl GameResult {
    /// How an outcome is announced: the player's win in green, the loss in
    /// red, the tie in yellow.
    pub open spec fn notice(self) -> Piece {
        match self {
            GameResult::Win => tinted(Tint::Green, "You win!"@),
            GameResult::Lose => tinted(Tint::Red, "You lose!"@),
            GameResult::Tie => tinted(Tint::Yellow, "It's a tie!"@),
        }
    }

    /// The announcement of the outcome.
    pub fn announce(&self) -> (span: Span)
        ensures
            span@ == self.notice(),
    {
        match self {
            GameResult::Win => Span::tinted(Tint::Green, "You win!"),
            GameResult::Lose => Span::tinted(Tint::Red, "You lose!"),
            GameResult::Tie => Span::tinted(Tint::Yellow, "It's a tie!"),
        }
    }
}

impl State {
    /// What is shown below the hands in each phase: the menu while the
    /// player chooses, the outcome and what can follow once the round is
    /// over, and otherwise the key that carries on.
    pub open spec fn control_lines(self) -> Seq<Seq<Piece>> {
        match self {
            State::Selecting(choice) => seq![
                Choice::Hit.menu_line(choice),
                Choice::Stand.menu_line(choice),
                Choice::Surrender.menu_line(choice),
            ],
            State::Starting(Stage::First) => seq![
                seq![plain("Welcome to Blackjack!"@)],
                seq![plain("[SPACE / ENTER] Start"@)],
            ],
            State::Presenting | State::Standing | State::Starting(_) => seq![
                seq![plain("[SPACE / ENTER] Continue"@)],
            ],
            State::GameOver(result) => seq![
                seq![result.notice()],
                seq![plain("[SPACE / ENTER] Play again"@)],
                seq![plain("[ESC / Q] Quit"@)],
            ],
        }
    }

    /// The lines shown below the hands.
    pub fn controls(&self) -> (lines: Vec<Vec<Span>>)
        ensures
            page(lines@) == self.control_lines(),
    {
        let mut lines: Vec<Vec<Span>> = Vec::new();
        match self {
            State::Selecting(choice) => {
                lines.push(Choice::Hit.entry(choice));
                lines.push(Choice::Stand.entry(choice));
                lines.push(Choice::Surrender.entry(choice));
            },
            State::Starting(Stage::First) => {
                lines.push(line_of(Span::plain("Welcome to Blackjack!")));
                lines.push(line_of(Span::plain("[SPACE / ENTER] Start")));
            },
            State::Presenting | State::Standing | State::Starting(_) => {
                lines.push(line_of(Span::plain("[SPACE / ENTER] Continue")));
            },
            State::GameOver(result) => {
                lines.push(line_of(result.announce()));
                lines.push(line_of(Span::plain("[SPACE / ENTER] Play again")));
                lines.push(line_of(Span::plain("[ESC / Q] Quit")));
            },
        }
        assert(page(lines@) =~= self.control_lines());
        lines
    }
}

/// The line at the head of the screen.
pub open spec fn title_line() -> Seq<Piece> {
    seq![Piece { tint: Tint::White, bold: true, text: "BLACKJACK v0.1.0"@ }]
}

/// The phase that follows a card dealt to the dealer, given both totals. A
/// dealer past twenty-one has lost; one below seventeen draws again; from
/// seventeen on the higher total wins and equal totals tie.
pub open spec fn resolution(dealer: nat, player: nat) -> State {
    if dealer > 21 {
        State::GameOver(GameResult::Win)
    } else if dealer < 17 {
        State::Standing
    } else if dealer > player {
        State::GameOver(GameResult::Lose)
    } else if dealer < player {
        State::GameOver(GameResult::Win)
    } else {
        State::GameOver(GameResult::Tie)
    }
}

/// Decides the phase after the dealer has drawn.
pub fn resolve(dealer: u8, player: u8) -> (next: State)
    ensures
        next == resolution(dealer as nat, player as nat),
{
    if dealer > 21 {
        State::GameOver(GameResult::Win)
    } else if dealer < 17 {
        State::Standing
    } else if dealer > player {
        State::GameOver(GameResult::Lose)
    } else if dealer < player {
        State::GameOver(GameResult::Win)
    } else {
        State::GameOver(GameResult::Tie)
    }
}

/// The table as a mathematical value: the draw pile with its top at the
/// end, both hands in dealing order, and the phase.
pub struct Table {
    pub deck: Seq<Card>,
    pub player: Seq<Card>,
    pub dealer: Seq<Card>,
    pub state: State,
}

impl Table {
    /// The table before the first round: the whole pack in the draw pile.
    pub open spec fn opening() -> Table {
        Table {
            deck: full_pack(),
            player: Seq::empty(),
            dealer: Seq::empty(),
            state: State::Starting(Stage::First),
        }
    }

    /// All the cards on the table, wherever they lie.
    pub open spec fn cards(self) -> Multiset<Card> {
        self.deck.to_multiset().add(self.player.to_multiset()).add(self.dealer.to_multiset())
    }

    /// The same table in another phase.
    pub open spec fn in_state(self, state: State) -> Table {
        Table { state, ..self }
    }

    /// The top card of the draw pile moved to the end of the player's hand.
    pub open spec fn deal_player(self) -> Table {
        Table { deck: self.deck.drop_last(), player: self.player.push(self.deck.last()), ..self }
    }

    /// The top card of the draw pile moved to the end of the dealer's hand.
    pub open spec fn deal_dealer(self) -> Table {
        Table { deck: self.deck.drop_last(), dealer: self.dealer.push(self.deck.last()), ..self }
    }

    /// Both hands put back on the draw pile, the dealer's first.
    pub open spec fn gathered(self) -> Table {
        Table {
            deck: self.deck + self.dealer + self.player,
            player: Seq::empty(),
            dealer: Seq::empty(),
            ..self
        }
    }

    /// Whether `input` opens a round, which is when the draw pile is
    /// shuffled.
    pub open spec fn opens_round(self, input: Input) -> bool {
        self.state == State::Starting(Stage::First) && input == Input::Continue
    }

    /// Whether `other` is this table with its draw pile in some other order.
    pub open spec fn reshuffled(self, other: Table) -> bool {
        &&& other.deck.to_multiset() == self.deck.to_multiset()
        &&& other.player == self.player
        &&& other.dealer == self.dealer
        &&& other.state == self.state
    }

    /// Whether `next` can follow this table on `input`: it is the step from
    /// this table, taken after some shuffle of the draw pile where the
    /// input opens a round.
    pub open spec fn leads_to(self, input: Input, next: Table) -> bool {
        if self.opens_round(input) {
            exists|shuffled: Table| #[trigger]
                self.reshuffled(shuffled) && next == shuffled.step(input)
        } else {
            next == self.step(input)
        }
    }

    /// The table after `input`, dealing from the draw pile as it lies.
    pub open spec fn step(self, input: Input) -> Table {
        match (self.state, input) {
            (State::Starting(Stage::First), Input::Continue) => self.deal_player().in_state(
                State::Starting(Stage::Second),
            ),
            (State::Starting(Stage::Second), Input::Continue) => self.deal_dealer().in_state(
                State::Starting(Stage::Third),
            ),
            (State::Starting(Stage::Third), Input::Continue) => self.deal_player().in_state(
                State::Selecting(Choice::Hit),
            ),
            (State::Selecting(Choice::Hit), Input::Continue) => {
                let dealt = self.deal_player();
                dealt.in_state(
                    if score(dealt.player) > 21 {
                        State::GameOver(GameResult::Lose)
                    } else {
                        State::Selecting(Choice::Hit)
                    },
                )
            },
            (State::Selecting(Choice::Stand), Input::Continue) | (
                State::Standing,
                Input::Continue,
            ) => {
                let dealt = self.deal_dealer();
                dealt.in_state(resolution(score(dealt.dealer), score(dealt.player)))
            },
            (State::Selecting(Choice::Surrender), Input::Continue) => self.in_state(
                State::GameOver(GameResult::Lose),
            ),
            (State::Selecting(choice), Input::Up) => self.in_state(
                State::Selecting(choice.above()),
            ),
            (State::Selecting(choice), Input::Down) => self.in_state(
                State::Selecting(choice.below()),
            ),
            (State::Presenting, Input::Continue) => self.in_state(State::Selecting(Choice::Hit)),
            (State::GameOver(_), Input::Continue) => self.gathered().in_state(
                State::Starting(Stage::First),
            ),
            _ => self,
        }
    }

    /// The whole screen: the title and an empty line, the dealer's hand,
    /// the player's hand, and the lines that belong to the phase.
    pub open spec fn screen(self) -> Seq<Seq<Piece>> {
        seq![title_line(), Seq::empty()] + hand_lines("Dealer"@, self.dealer) + hand_lines(
            "You"@,
            self.player,
        ) + self.state.control_lines()
    }

    /// Whether `input` takes a card from the draw pile.
    pub open spec fn draws(self, input: Input) -> bool {
        input == Input::Continue && match self.state {
            State::Starting(_) | State::Standing => true,
            State::Selecting(choice) => choice != Choice::Surrender,
            _ => false,
        }
    }

    /// What holds of every table a game can reach. The cards on the table
    /// are the pack, each card once; the hands are as the phase has dealt
    /// them; and an outcome is borne out by the totals.
    pub open spec fn valid(self) -> bool {
        &&& self.cards() == full_pack().to_multiset()
        &&& match self.state {
            State::Starting(Stage::First) => self.player.len() == 0 && self.dealer.len() == 0,
            State::Starting(Stage::Second) => self.player.len() == 1 && self.dealer.len() == 0,
            State::Starting(Stage::Third) => self.player.len() == 1 && self.dealer.len() == 1,
            State::Presenting | State::Selecting(_) => {
                &&& self.player.len() >= 2
                &&& score(self.player) <= 21
                &&& self.dealer.len() == 1
            },
            State::Standing => {
                &&& self.player.len() >= 2
                &&& score(self.player) <= 21
                &&& self.dealer.len() >= 2
                &&& score(self.dealer) < 17
            },
            State::GameOver(result) => {
                &&& self.player.len() >= 2
                &&& score(self.player.drop_last()) <= 21
                &&& self.dealer.len() >= 1
                &&& score(self.dealer.drop_last()) < 17
                &&& match result {
                    GameResult::Win => score(self.player) <= 21 && (score(self.dealer) > 21 || 17
                        <= score(self.dealer) < score(self.player)),
                    GameResult::Tie => 17 <= score(self.dealer) == score(self.player) <= 21,
                    GameResult::Lose => self.dealer.len() == 1 || score(self.player) < score(
                        self.dealer,
                    ) <= 21,
                }
            },
        }
    }
}

/// On a valid table the three piles hold fifty-two cards between them, the
/// totals stay small, and the draw pile is not empty when a card is due.
pub proof fn valid_table_bounds(table: Table, input: Input)
    requires
        table.valid(),
    ensures
        table.deck.len() + table.player.len() + table.dealer.len() == 52,
        table.cards() == full_pack().to_multiset(),
        score(table.player) <= 31,
        score(table.dealer) <= 27,
        table.draws(input) ==> table.deck.len() > 0,
{
    to_multiset_len(table.deck);
    to_multiset_len(table.player);
    to_multiset_len(table.dealer);
    to_multiset_len(full_pack());
    score_counts_cards(table.player);
    score_counts_cards(table.dealer);
    short_hand_scores(table.player);
    short_hand_scores(table.dealer);
    if table.player.len() > 0 {
        score_grows(table.player.drop_last(), table.player.last());
        assert(table.player.drop_last().push(table.player.last()) =~= table.player);
    }
    if table.dealer.len() > 0 {
        score_grows(table.dealer.drop_last(), table.dealer.last());
        assert(table.dealer.drop_last().push(table.dealer.last()) =~= table.dealer);
    }
}

/// An empty pile holds no card.
proof fn no_cards()
    ensures
        Seq::<Card>::empty().to_multiset() == Multiset::<Card>::empty(),
{
    let none = Seq::<Card>::empty().to_multiset();
    to_multiset_len(Seq::<Card>::empty());
    lemma_multiset_empty_len(none);
    assert(none =~= Multiset::<Card>::empty());
}

/// Every input leads from a valid table to a valid table.
pub proof fn step_keeps_valid(table: Table, input: Input)
    requires
        table.valid(),
    ensures
        table.step(input).valid(),
{
    let next = table.step(input);
    valid_table_bounds(table, input);
    if table.draws(input) {
        let top = table.deck.last();
        assert(table.deck.drop_last().push(top) =~= table.deck);
        to_multiset_build(table.deck.drop_last(), top);
        to_multiset_build(table.player, top);
        to_multiset_build(table.dealer, top);
        score_grows(table.player, top);
        score_grows(table.dealer, top);
        assert(table.player.push(top).drop_last() =~= table.player);
        assert(table.dealer.push(top).drop_last() =~= table.dealer);
        short_hand_scores(table.player.push(top));
        short_hand_scores(table.dealer.push(top));
        assert(next.cards() =~= table.cards());
    } else if table.state is GameOver && input == Input::Continue {
        lemma_multiset_commutative(table.deck + table.dealer, table.player);
        lemma_multiset_commutative(table.deck, table.dealer);
        no_cards();
        assert(next.cards() =~= table.cards());
    } else {
        if table.dealer.len() == 1 {
            short_hand_scores(table.dealer);
        }
    }
}

/// Putting the draw pile in another order leaves a valid table valid.
pub proof fn reshuffle_keeps_valid(table: Table, other: Table)
    requires
        table.valid(),
        table.reshuffled(other),
    ensures
        other.valid(),
{
}

/// The opening table is valid.
pub proof fn opening_is_valid()
    ensures
        Table::opening().valid(),
{
    no_cards();
    assert(Table::opening().cards() =~= full_pack().to_multiset());
}

/// Whether `tables` is a game played on `inputs`: it starts at the opening
/// table, and each table leads to the next on the input of that turn.
pub open spec fn is_play(tables: Seq<Table>, inputs: Seq<Input>) -> bool {
    &&& tables.len() == inputs.len() + 1
    &&& tables[0] == Table::opening()
    &&& forall|i: int|
        0 <= i < inputs.len() ==> (#[trigger] tables[i]).leads_to(inputs[i], tables[i + 1])
}

/// Every table a game passes through is valid, whatever the inputs and
/// however the shuffles fall: it holds the pack, each card once, fifty-two
/// cards in all.
pub proof fn every_play_stays_valid(tables: Seq<Table>, inputs: Seq<Input>, turn: int)
    requires
        is_play(tables, inputs),
        0 <= turn <= inputs.len(),
    ensures
        tables[turn].valid(),
        tables[turn].deck.len() + tables[turn].player.len() + tables[turn].dealer.len() == 52,
        tables[turn].cards() == full_pack().to_multiset(),
    decreases turn,
{
    if turn == 0 {
        opening_is_valid();
    } else {
        let before = tables[turn - 1];
        let input = inputs[turn - 1];
        every_play_stays_valid(tables, inputs, turn - 1);
        assert(before.leads_to(input, tables[turn]));
        if before.opens_round(input) {
            let shuffled = choose|shuffled: Table| #[trigger]
                before.reshuffled(shuffled) && tables[turn] == shuffled.step(input);
            reshuffle_keeps_valid(before, shuffled);
            step_keeps_valid(shuffled, input);
        } else {
            step_keeps_valid(before, input);
        }
    }
    valid_table_bounds(tables[turn], Input::Continue);
}

/// The menu is a cycle of three: `Up` and `Down` undo each other, no entry
/// stays where it is, and three steps either way come back to the start.
pub proof fn menu_is_a_cycle(choice: Choice)
    ensures
        choice.above().below() == choice,
        choice.below().above() == choice,
        choice.below() != choice,
        choice.above() != choice,
        choice.below().below().below() == choice,
        choice.above().above().above() == choice,
{
}

/// Cards are neither made nor lost: on every valid table the draw pile and
/// the two hands hold fifty-two cards between them, and those cards are the
/// pack.
pub proof fn cards_are_conserved(table: Table)
    requires
        table.valid(),
    ensures
        table.deck.len() + table.player.len() + table.dealer.len() == 52,
        table.cards() == full_pack().to_multiset(),
        forall|card: Card| #[trigger]
            table.cards().count(card) == 1,
{
    valid_table_bounds(table, Input::Continue);
    assert forall|card: Card| #[trigger] table.cards().count(card) == 1 by {
        pack_holds_each_card_once(card);
    }
}

/// A hit deals one card to the player and looks at nothing else: past
/// twenty-one the round is lost, whatever the dealer holds; otherwise the
/// player chooses again.
pub proof fn hit_busts_past_twenty_one(table: Table)
    requires
        table.state == State::Selecting(Choice::Hit),
    ensures
        table.step(Input::Continue).player == table.player.push(table.deck.last()),
        table.step(Input::Continue).dealer == table.dealer,
        score(table.step(Input::Continue).player) > 21 ==> table.step(Input::Continue).state
            == State::GameOver(GameResult::Lose),
        score(table.step(Input::Continue).player) <= 21 ==> table.step(Input::Continue).state
            == State::Selecting(Choice::Hit),
{
}

/// The dealer stands on seventeen. When the dealer draws, after a stand or
/// while standing, the dealer keeps drawing only while the total is below
/// seventeen; from seventeen on the round is over. No valid table has the
/// dealer drawing at seventeen or more.
pub proof fn dealer_stands_on_seventeen(table: Table)
    requires
        table.state == State::Standing || table.state == State::Selecting(Choice::Stand),
    ensures
        table.step(Input::Continue).dealer == table.dealer.push(table.deck.last()),
        table.step(Input::Continue).player == table.player,
        score(table.step(Input::Continue).dealer) >= 17 ==> table.step(
            Input::Continue,
        ).state is GameOver,
        score(table.step(Input::Continue).dealer) < 17 ==> table.step(Input::Continue).state
            == State::Standing,
        table.valid() && table.state == State::Standing ==> score(table.dealer) < 17,
{
}

/// After a round is over, `Continue` clears both hands and puts all
/// fifty-two cards back in the draw pile, ready for the next shuffle.
pub proof fn round_resets(table: Table)
    requires
        table.valid(),
        table.state is GameOver,
    ensures
        table.step(Input::Continue).state == State::Starting(Stage::First),
        table.step(Input::Continue).player.len() == 0,
        table.step(Input::Continue).dealer.len() == 0,
        score(table.step(Input::Continue).player) == 0,
        score(table.step(Input::Continue).dealer) == 0,
        table.step(Input::Continue).deck.len() == 52,
        table.step(Input::Continue).deck.to_multiset() == full_pack().to_multiset(),
{
    let next = table.step(Input::Continue);
    step_keeps_valid(table, Input::Continue);
    valid_table_bounds(next, Input::Continue);
    no_cards();
    assert(next.cards() =~= next.deck.to_multiset());
}

/// `Up` and `Down` mean something only while the player chooses: in every
/// other phase they leave the table as it is.
pub proof fn idle_keys_change_nothing(table: Table, input: Input)
    requires
        input == Input::Up || input == Input::Down,
        !(table.state is Selecting),
    ensures
        table.step(input) == table,
{
}

/// Shuffles a pile in place with `rand::seq::SliceRandom::shuffle`, drawing
/// on the thread's generator. The outside function only swaps elements of
/// the slice, so the pile afterwards holds the cards it held before, each as
/// often as before; in which order is left open.
#[verifier::external_body]
fn shuffle_cards(cards: &mut Vec<Card>)
    ensures
        final(cards)@.to_multiset() == old(cards)@.to_multiset(),
{
    cards.shuffle(&mut rand::thread_rng());
}

/// Moves the top card of the draw pile to the end of a hand.
fn deal(deck: &mut Vec<Card>, hand: &mut Hand)
    requires
        old(deck)@.len() > 0,
    ensures
        final(deck)@ == old(deck)@.drop_last(),
        final(hand).cards@ == old(hand).cards@.push(old(deck)@.last()),
{
    match deck.pop() {
        Some(card) => hand.add_card(card),
        None => {},
    }
}

/// A game of blackjack: the draw pile, both hands and the phase.
pub struct Game {
    deck: Vec<Card>,
    state: State,
    player: Hand,
    dealer: Hand,
}

impl View for Game {
    type V = Table;

    closed spec fn view(&self) -> Table {
        Table {
            deck: self.deck@,
            player: self.player.cards@,
            dealer: self.dealer.cards@,
            state: self.state,
        }
    }
}

impl Game {
    /// A game before its first round: the pack unshuffled in the draw pile,
    /// both hands empty.
    pub fn new() -> (game: Game)
        ensures
            game@ == Table::opening(),
            game@.valid(),
    {
        proof {
            opening_is_valid();
        }
        Game {
            deck: pack(),
            state: State::Starting(Stage::First),
            player: Hand::new(),
            dealer: Hand::new(),
        }
    }

    /// A game put together from its parts. There is such a game exactly
    /// when the parts make a valid table.
    pub fn from_parts(deck: Vec<Card>, player: Hand, dealer: Hand, state: State) -> (game: Option<
        Game,
    >)
        ensures
            game is Some <==> (Table {
                deck: deck@,
                player: player.cards@,
                dealer: dealer.cards@,
                state,
            }).valid(),
            game matches Some(g) ==> g@ == (Table {
                deck: deck@,
                player: player.cards@,
                dealer: dealer.cards@,
                state,
            }),
    {
        let game = Game { deck, state, player, dealer };
        if game.is_valid() {
            Some(game)
        } else {
            None
        }
    }

    /// Whether the game is a valid table: the pack complete, the hands as
    /// the phase has dealt them, an outcome borne out by the totals.
    pub fn is_valid(&self) -> (ok: bool)
        ensures
            ok == self@.valid(),
    {
        let mut all: Vec<Card> = Vec::new();
        extend_pile(&mut all, &self.deck);
        extend_pile(&mut all, &self.player.cards);
        extend_pile(&mut all, &self.dealer.cards);
        proof {
            let table = self@;
            assert(all@ =~= table.deck + table.player + table.dealer);
            lemma_multiset_commutative(table.deck + table.player, table.dealer);
            lemma_multiset_commutative(table.deck, table.player);
            assert(all@.to_multiset() =~= table.cards());
        }
        if !is_pack(&all) {
            return false;
        }
        let held: usize = self.player.cards.len();
        let shown: usize = self.dealer.cards.len();
        proof {
            assert(self@.player.take(held as int) =~= self@.player);
            assert(self@.dealer.take(shown as int) =~= self@.dealer);
            if held > 0 {
                assert(self@.player.take(held - 1) =~= self@.player.drop_last());
                score_grows(self@.player.drop_last(), self@.player.last());
                assert(self@.player.drop_last().push(self@.player.last()) =~= self@.player);
            }
            if shown > 0 {
                assert(self@.dealer.take(shown - 1) =~= self@.dealer.drop_last());
                score_grows(self@.dealer.drop_last(), self@.dealer.last());
                assert(self@.dealer.drop_last().push(self@.dealer.last()) =~= self@.dealer);
            }
        }
        match self.state {
            State::Starting(Stage::First) => held == 0 && shown == 0,
            State::Starting(Stage::Second) => held == 1 && shown == 0,
            State::Starting(Stage::Third) => held == 1 && shown == 1,
            State::Presenting | State::Selecting(_) => {
                held >= 2 && shown == 1 && points_within(&self.player.cards, held, 21).is_some()
            },
            State::Standing => {
                held >= 2 && shown >= 2 && points_within(&self.player.cards, held, 21).is_some()
                    && points_within(&self.dealer.cards, shown, 16).is_some()
            },
            State::GameOver(result) => {
                if held < 2 || shown < 1 {
                    return false;
                }
                if points_within(&self.player.cards, held - 1, 21).is_none() {
                    return false;
                }
                if points_within(&self.dealer.cards, shown - 1, 16).is_none() {
                    return false;
                }
                match (
                    points_within(&self.player.cards, held, 31),
                    points_within(&self.dealer.cards, shown, 27),
                ) {
                    (Some(player), Some(dealer)) => match result {
                        GameResult::Win => player <= 21 && (dealer > 21 || (17 <= dealer
                            && dealer < player)),
                        GameResult::Tie => 17 <= dealer && dealer == player && player <= 21,
                        GameResult::Lose => shown == 1 || (player < dealer && dealer <= 21),
                    },
                    _ => false,
                }
            },
        }
    }

    /// A game before its first round whose draw pile lies in the given
    /// order, top card last. There is such a game exactly when the pile is
    /// the pack in some order.
    pub fn with_deck(deck: Vec<Card>) -> (game: Option<Game>)
        ensures
            game is Some <==> deck@.to_multiset() == full_pack().to_multiset(),
            game matches Some(g) ==> g@ == (Table { deck: deck@, ..Table::opening() })
                && g@.valid(),
    {
        if is_pack(&deck) {
            let game = Game {
                deck,
                state: State::Starting(Stage::First),
                player: Hand::new(),
                dealer: Hand::new(),
            };
            proof {
                opening_is_valid();
                assert(Table::opening().reshuffled(game@));
                reshuffle_keeps_valid(Table::opening(), game@);
            }
            Some(game)
        } else {
            None
        }
    }

    /// The phase the game is in.
    pub fn state(&self) -> (state: State)
        ensures
            state == self@.state,
    {
        self.state
    }

    /// The player's hand.
    pub fn player(&self) -> (hand: &Hand)
        ensures
            hand.cards@ == self@.player,
    {
        &self.player
    }

    /// The dealer's hand.
    pub fn dealer(&self) -> (hand: &Hand)
        ensures
            hand.cards@ == self@.dealer,
    {
        &self.dealer
    }

    /// The draw pile, top card last.
    pub fn deck(&self) -> (pile: &Vec<Card>)
        ensures
            pile@ == self@.deck,
    {
        &self.deck
    }

    /// The screen for the game as it stands, line by line.
    pub fn render(&self) -> (lines: Vec<Vec<Span>>)
        requires
            self@.valid(),
        ensures
            page(lines@) == self@.screen(),
    {
        proof {
            valid_table_bounds(self@, Input::Continue);
        }
        let mut lines: Vec<Vec<Span>> = Vec::new();
        lines.push(
            line_of(
                Span { tint: Tint::White, bold: true, text: String::from_str("BLACKJACK v0.1.0") },
            ),
        );
        lines.push(Vec::new());
        proof {
            assert(pieces(lines@[0]@) =~= title_line());
            assert(pieces(lines@[1]@) =~= Seq::empty());
            assert(page(lines@) =~= seq![title_line(), Seq::empty()]);
        }
        let mut dealer = self.dealer.render("Dealer");
        proof {
            page_of_concat(lines@, dealer@);
        }
        lines.append(&mut dealer);
        let mut player = self.player.render("You");
        proof {
            page_of_concat(lines@, player@);
        }
        lines.append(&mut player);
        let mut controls = self.state.controls();
        proof {
            page_of_concat(lines@, controls@);
        }
        lines.append(&mut controls);
        lines
    }

    /// Feeds one input to the game. An input that opens a round first
    /// shuffles the draw pile.
    pub fn update(&mut self, input: Input)
        requires
            old(self)@.valid(),
        ensures
            final(self)@.valid(),
            old(self)@.leads_to(input, final(self)@),
    {
        match (self.state, input) {
            (State::Starting(Stage::First), Input::Continue) => {
                shuffle_cards(&mut self.deck);
                proof {
                    assert(old(self)@.reshuffled(self@));
                    reshuffle_keeps_valid(old(self)@, self@);
                }
            },
            _ => {},
        }
        self.advance(input);
    }

    /// Feeds one input to the game, dealing from the draw pile as it lies.
    pub fn advance(&mut self, input: Input)
        requires
            old(self)@.valid(),
        ensures
            final(self)@.valid(),
            final(self)@ == old(self)@.step(input),
    {
        proof {
            valid_table_bounds(self@, input);
            step_keeps_valid(self@, input);
        }
        match (self.state, input) {
            (State::Starting(Stage::First), Input::Continue) => {
                deal(&mut self.deck, &mut self.player);
                self.state = State::Starting(Stage::Second);
            },
            (State::Starting(Stage::Second), Input::Continue) => {
                deal(&mut self.deck, &mut self.dealer);
                self.state = State::Starting(Stage::Third);
            },
            (State::Starting(Stage::Third), Input::Continue) => {
                deal(&mut self.deck, &mut self.player);
                self.state = State::Selecting(Choice::Hit);
            },
            (State::Selecting(Choice::Hit), Input::Continue) => {
                deal(&mut self.deck, &mut self.player);
                proof {
                    score_grows(old(self)@.player, old(self)@.deck.last());
                }
                self.state = if self.player.points() > 21 {
                    State::GameOver(GameResult::Lose)
                } else {
                    State::Selecting(Choice::Hit)
                };
            },
            (State::Selecting(Choice::Stand), Input::Continue) | (
                State::Standing,
                Input::Continue,
            ) => {
                deal(&mut self.deck, &mut self.dealer);
                proof {
                    score_grows(old(self)@.dealer, old(self)@.deck.last());
                }
                self.state = resolve(self.dealer.points(), self.player.points());
            },
            (State::Selecting(Choice::Surrender), Input::Continue) => {
                self.state = State::GameOver(GameResult::Lose);
            },
            (State::Selecting(choice), Input::Up) => {
                self.state = State::Selecting(choice.up());
            },
            (State::Selecting(choice), Input::Down) => {
                self.state = State::Selecting(choice.down());
            },
            (State::Presenting, Input::Continue) => {
                self.state = State::Selecting(Choice::Hit);
            },
            (State::GameOver(_), Input::Continue) => {
                self.deck.append(&mut self.dealer.cards);
                self.deck.append(&mut self.player.cards);
                self.state = State::Starting(Stage::First);
            },
            _ => {},
        }
    }
}

} // verus!
