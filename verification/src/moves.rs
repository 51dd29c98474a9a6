//! The moves of the game, who is to move, and what can go wrong.

use vstd::prelude::*;

verus! {

/// One step of play.
#[derive(Clone, Copy, Debug, PartialEq, Eq, Structural)]
pub enum Move {
    /// The player to move puts one token on the card and leaves it lying.
    Pass,
    /// The player to move takes the card and the tokens on it.
    Take,
    /// Chance turns up the card with this index.
    NextCard(usize),
}

/// Whose decision is pending.
#[derive(Clone, Copy, Debug, PartialEq, Eq, Structural)]
pub enum Player {
    /// No card lies open: chance has to turn one up.
    Random,
    /// A card lies open and the player with this index has to pass or take.
    Player(usize),
}

/// Why a request was turned down.
#[derive(Clone, Copy, Debug, PartialEq, Eq, Structural)]
pub enum GameError {
    /// The game is played by three to seven players.
    InvalidPlayerCount,
    /// The move is not among the legal moves of the position.
    IllegalMove,
    /// The deck has no card with that face value.
    NoSuchCard,
    /// What was supplied is not what the game was waiting for.
    UnexpectedEvent,
    /// No card lies open, so none can have been taken.
    NoCardRevealed,
    /// Fewer tokens were reported on the card than already lay on it.
    ReportedTotalTooLow,
    /// The reported tokens would need a pass from a player without tokens.
    BankruptPlayer,
}

} // verus!
