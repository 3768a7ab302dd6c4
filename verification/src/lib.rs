//! Single-player blackjack against an automated dealer: the card model, the
//! hands with their scoring rule, and the state machine that drives a round.

pub mod game;
pub mod keys;
