//! A game at a table where one seat is played by a search and the others by
//! people whose single decisions nobody enters.
//!
//! The session says what it needs next, and moves on when it is given that:
//! a card that was turned up, the move that the search found best, or the
//! number of tokens that lay on the card when somebody took it. From that
//! number it recovers who passed how often since the card was turned up.

use vstd::prelude::*;
use crate::cards::{card_index, HIGH_CARD, LOW_CARD};
use crate::game::NoThanksGame;
use crate::moves::{GameError, Move};
use crate::position::{valid_player_count, Position};
use crate::reconstruct::reconstruct;

verus! {

/// What a session waits for.
#[derive(Clone, Copy, Debug, PartialEq, Eq, Structural)]
pub enum Prompt {
    /// Nothing: the game is over.
    Finished,
    /// The face value of the card that was turned up.
    EnterCard,
    /// The best move for the player with this index, who is played by the
    /// search.
    Search(usize),
    /// Nothing from outside: the player with this index is a person, who is
    /// taken to pass while having tokens.
    HumanTurn(usize),
    /// The number of tokens on the card when it was taken.
    EnterTakenAt,
}

/// What a session is given.
#[derive(Clone, Copy, Debug, PartialEq, Eq, Structural)]
pub enum Event {
    /// The card with this face value was turned up.
    Card(usize),
    /// The search found this move best.
    BestMove(Move),
    /// The person to move has had the turn.
    HumanTurn,
    /// The card was taken when this many tokens lay on it.
    TakenAt(usize),
}

/// A session as plain mathematics.
pub struct SessionState {
    /// The game as far as it is known.
    pub game: Position,
    /// The game as it stood when the open card was turned up.
    pub checkpoint: Position,
    /// Index of the player that the search plays.
    pub seat: int,
    /// Whether the open card was taken and the tokens on it are yet to be
    /// reported.
    pub awaiting_report: bool,
}

impl SessionState {
    /// The session before the first card, for `n` players.
    pub open spec fn initial(n: int, seat: int) -> SessionState {
        SessionState {
            game: Position::initial(n),
            checkpoint: Position::initial(n),
            seat,
            awaiting_report: false,
        }
    }

    /// What holds of every session that was started and moved on by steps.
    pub open spec fn valid(self) -> bool {
        &&& self.game.valid()
        &&& self.checkpoint.valid()
        &&& 0 <= self.seat
        &&& self.awaiting_report ==> self.game.active_card is Some
    }

    /// What the session waits for.
    pub open spec fn prompt(self) -> Prompt {
        if self.awaiting_report {
            Prompt::EnterTakenAt
        } else if self.game.is_terminal() {
            Prompt::Finished
        } else if self.game.active_card is None {
            Prompt::EnterCard
        } else if self.game.active_player == self.seat {
            Prompt::Search(self.seat as usize)
        } else {
            Prompt::HumanTurn(self.game.active_player as usize)
        }
    }

    /// The session with the game moved on by `m`.
    pub open spec fn played(self, m: Move) -> SessionState {
        SessionState {
            game: self.game.apply(m),
            checkpoint: self.checkpoint,
            seat: self.seat,
            awaiting_report: false,
        }
    }

    /// The session once the open card is known to have been taken.
    pub open spec fn taken(self) -> SessionState {
        SessionState {
            game: self.game,
            checkpoint: self.checkpoint,
            seat: self.seat,
            awaiting_report: true,
        }
    }

    /// The session after `event`, or the reason why the event is turned
    /// down.
    ///
    /// A card that is turned up is remembered as the checkpoint. The search
    /// may pass or take, a person passes while having tokens and takes
    /// without. A take is not played at once: the session then asks how many
    /// tokens lay on the card, and goes on from the position that follows
    /// from the checkpoint and that number.
    pub open spec fn step(self, event: Event) -> Result<SessionState, GameError> {
        match (self.prompt(), event) {
            (Prompt::EnterCard, Event::Card(face)) => {
                let reveal = Move::NextCard((face - LOW_CARD) as usize);
                if !(LOW_CARD <= face <= HIGH_CARD) {
                    Err(GameError::NoSuchCard)
                } else if !self.game.legal(reveal) {
                    Err(GameError::IllegalMove)
                } else {
                    Ok(
                        SessionState {
                            game: self.game.apply(reveal),
                            checkpoint: self.game.apply(reveal),
                            seat: self.seat,
                            awaiting_report: false,
                        },
                    )
                }
            },
            (Prompt::Search(_), Event::BestMove(m)) => {
                if !self.game.legal(m) {
                    Err(GameError::IllegalMove)
                } else if m == Move::Take {
                    Ok(self.taken())
                } else {
                    Ok(self.played(m))
                }
            },
            (Prompt::HumanTurn(_), Event::HumanTurn) => {
                if self.game.legal(Move::Pass) {
                    Ok(self.played(Move::Pass))
                } else {
                    Ok(self.taken())
                }
            },
            (Prompt::EnterTakenAt, Event::TakenAt(reported)) => {
                match self.checkpoint.reconstructed(reported as int) {
                    Ok(after) => Ok(
                        SessionState {
                            game: after,
                            checkpoint: after,
                            seat: self.seat,
                            awaiting_report: false,
                        },
                    ),
                    Err(e) => Err(e),
                }
            },
            _ => Err(GameError::UnexpectedEvent),
        }
    }

    /// A step that is not turned down leads from a session that was started
    /// and moved on by steps to another such session.
    pub proof fn lemma_step_valid(self, event: Event)
        requires
            self.valid(),
            self.step(event) is Ok,
        ensures
            self.step(event).unwrap().valid(),
    {
        match (self.prompt(), event) {
            (Prompt::EnterCard, Event::Card(face)) => {
                self.game.lemma_apply_valid(Move::NextCard((face - LOW_CARD) as usize));
            },
            (Prompt::Search(_), Event::BestMove(m)) => {
                self.game.lemma_apply_valid(m);
            },
            (Prompt::HumanTurn(_), Event::HumanTurn) => {
                if self.game.legal(Move::Pass) {
                    self.game.lemma_apply_valid(Move::Pass);
                }
            },
            (Prompt::EnterTakenAt, Event::TakenAt(reported)) => {
                self.checkpoint.lemma_reconstructed_valid(reported as int);
            },
            _ => {},
        }
    }
}

/// A game in which one player is played by a search and the others by
/// people.
#[derive(Debug)]
pub struct Session {
    game: NoThanksGame,
    game_at_last_card: NoThanksGame,
    which_player: usize,
    awaiting_report: bool,
}

impl View for Session {
    type V = SessionState;

    closed spec fn view(&self) -> SessionState {
        SessionState {
            game: self.game@,
            checkpoint: self.game_at_last_card@,
            seat: self.which_player as int,
            awaiting_report: self.awaiting_report,
        }
    }
}

impl Session {
    /// Whether the session is one that was started and moved on by steps.
    pub open spec fn wf(&self) -> bool {
        self@.valid()
    }

    /// A session for `players` players, of whom the one with the index
    /// `which_player` is played by the search; with an index that no player
    /// has, all are played by people.
    pub fn start(players: usize, which_player: usize) -> (made: Result<Session, GameError>)
        ensures
            made is Ok <==> valid_player_count(players as int),
            made matches Ok(session) ==> session.wf() && session@ == SessionState::initial(
                players as int,
                which_player as int,
            ),
            made matches Err(e) ==> e == GameError::InvalidPlayerCount,
    {
        match NoThanksGame::create(players) {
            Ok(game) => {
                let game_at_last_card = game.clone();
                Ok(Session { game, game_at_last_card, which_player, awaiting_report: false })
            },
            Err(e) => Err(e),
        }
    }

    /// The game as far as it is known.
    pub fn game(&self) -> (game: &NoThanksGame)
        ensures
            game@ == self@.game,
    {
        &self.game
    }

    /// Index of the player that the search plays.
    pub fn which_player(&self) -> (seat: usize)
        ensures
            seat == self@.seat,
    {
        self.which_player
    }

    /// What the session waits for.
    pub fn prompt(&self) -> (prompt: Prompt)
        requires
            self.wf(),
        ensures
            prompt == self@.prompt(),
    {
        if self.awaiting_report {
            Prompt::EnterTakenAt
        } else if self.game.is_terminal() {
            Prompt::Finished
        } else if self.game.active_card().is_none() {
            Prompt::EnterCard
        } else if self.game.active_player() == self.which_player {
            Prompt::Search(self.which_player)
        } else {
            Prompt::HumanTurn(self.game.active_player())
        }
    }

    /// Moves the session on by `event`, or turns the event down and leaves
    /// the session as it was.
    pub fn step(&mut self, event: &Event) -> (outcome: Result<(), GameError>)
        requires
            old(self).wf(),
        ensures
            final(self).wf(),
            outcome is Ok ==> old(self)@.step(*event) == Ok::<SessionState, GameError>(final(self)@),
            outcome matches Err(e) ==> old(self)@.step(*event) == Err::<SessionState, GameError>(e)
                && final(self)@ == old(self)@,
    {
        proof {
            if old(self)@.step(*event) is Ok {
                old(self)@.lemma_step_valid(*event);
            }
        }
        match (self.prompt(), *event) {
            (Prompt::EnterCard, Event::Card(face)) => {
                match card_index(face) {
                    None => Err(GameError::NoSuchCard),
                    Some(card) => {
                        let reveal = Move::NextCard(card);
                        if self.game.is_legal(&reveal) {
                            self.game.make_move(&reveal);
                            self.game_at_last_card = self.game.clone();
                            Ok(())
                        } else {
                            Err(GameError::IllegalMove)
                        }
                    },
                }
            },
            (Prompt::Search(_), Event::BestMove(best)) => {
                if !self.game.is_legal(&best) {
                    Err(GameError::IllegalMove)
                } else {
                    match best {
                        Move::Take => {
                            self.awaiting_report = true;
                        },
                        _ => {
                            self.game.make_move(&best);
                        },
                    }
                    Ok(())
                }
            },
            (Prompt::HumanTurn(_), Event::HumanTurn) => {
                if self.game.is_legal(&Move::Pass) {
                    self.game.make_move(&Move::Pass);
                } else {
                    self.awaiting_report = true;
                }
                Ok(())
            },
            (Prompt::EnterTakenAt, Event::TakenAt(reported)) => {
                match reconstruct(&self.game_at_last_card, reported) {
                    Ok(after) => {
                        self.game = after.clone();
                        self.game_at_last_card = after;
                        self.awaiting_report = false;
                        Ok(())
                    },
                    Err(e) => Err(e),
                }
            },
            _ => Err(GameError::UnexpectedEvent),
        }
    }
}

} // verus!
