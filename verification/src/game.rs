//! The game as it is played: the state that moves act on, its setup, the
//! legal moves of a state and the effect of each.

use vstd::prelude::*;
use crate::cards::{CARDS_IN_PLAY, NUM_CARDS};
use crate::moves::{GameError, Move, Player};
use crate::position::{
    lemma_initial_valid, reveals_to, spec_starting_tokens, valid_player_count, Position,
};

verus! {

/// A game of No Thanks between three to seven players.
#[derive(Debug)]
pub struct NoThanksGame {
    /// Tokens lying on the open card.
    active_tokens: usize,
    /// Index of the open card; none while chance is to move.
    active_card: Option<usize>,
    /// Index of the player who decides next.
    active_player: usize,
    /// Number of cards that players have taken.
    cards_taken: usize,
    /// Tokens in each player's hand.
    player_tokens: Vec<usize>,
    /// For each card index, the player who took the card.
    card_owners: [Option<usize>; NUM_CARDS],
}

/// An optional index as an optional integer.
pub open spec fn index_view(index: Option<usize>) -> Option<int> {
    match index {
        Some(i) => Some(i as int),
        None => None,
    }
}

/// Whether two optional indices are the same.
pub fn same_index(a: Option<usize>, b: Option<usize>) -> (same: bool)
    ensures
        same == (index_view(a) == index_view(b)),
{
    match (a, b) {
        (None, None) => true,
        (Some(x), Some(y)) => x == y,
        _ => false,
    }
}

impl View for NoThanksGame {
    type V = Position;

    closed spec fn view(&self) -> Position {
        Position {
            active_tokens: self.active_tokens as int,
            active_card: index_view(self.active_card),
            active_player: self.active_player as int,
            cards_taken: self.cards_taken as int,
            player_tokens: Seq::new(self.player_tokens@.len(), |p: int| self.player_tokens@[p] as int),
            card_owners: Seq::new(NUM_CARDS as nat, |c: int| index_view(self.card_owners@[c])),
        }
    }
}

/// Tokens that each player starts with, for a number of players that the
/// game allows.
pub fn starting_tokens(num_players: usize) -> (tokens: Option<usize>)
    ensures
        tokens is Some <==> valid_player_count(num_players as int),
        tokens matches Some(t) ==> t == spec_starting_tokens(num_players as int),
{
    if 3 <= num_players && num_players <= 5 {
        Some(11)
    } else if num_players == 6 {
        Some(9)
    } else if num_players == 7 {
        Some(7)
    } else {
        None
    }
}

impl NoThanksGame {
    /// Whether the state stands for a valid position. Every state that this
    /// library hands out does.
    pub open spec fn wf(&self) -> bool {
        self@.valid()
    }

    /// A new game for `num_players` players, before the first card is turned up.
    pub fn new(num_players: usize) -> (game: Self)
        requires
            valid_player_count(num_players as int),
        ensures
            game@ == Position::initial(num_players as int),
            game.wf(),
    {
        let tokens = starting_tokens(num_players).unwrap();
        let game = NoThanksGame {
            active_tokens: 0,
            active_card: None,
            active_player: 0,
            cards_taken: 0,
            player_tokens: vec![tokens; num_players],
            card_owners: [None;NUM_CARDS],
        };
        proof {
            let start = Position::initial(num_players as int);
            assert(game@.player_tokens =~= start.player_tokens);
            assert(game@.card_owners =~= start.card_owners);
            lemma_initial_valid(num_players as int);
        }
        game
    }

    /// A new game for `num_players` players, or the reason why there is none.
    pub fn create(num_players: usize) -> (made: Result<Self, GameError>)
        ensures
            made is Ok <==> valid_player_count(num_players as int),
            made matches Ok(game) ==> game@ == Position::initial(num_players as int) && game.wf(),
            made matches Err(e) ==> e == GameError::InvalidPlayerCount,
    {
        match starting_tokens(num_players) {
            Some(_) => Ok(Self::new(num_players)),
            None => Err(GameError::InvalidPlayerCount),
        }
    }

    /// Every state has a place for each card of the deck.
    pub proof fn lemma_deck_size(&self)
        ensures
            self@.card_owners.len() == NUM_CARDS,
    {
    }

    /// Number of players at the table.
    pub fn num_players(&self) -> (n: usize)
        ensures
            n == self@.num_players(),
    {
        self.player_tokens.len()
    }

    /// Tokens lying on the open card.
    pub fn active_tokens(&self) -> (tokens: usize)
        ensures
            tokens == self@.active_tokens,
    {
        self.active_tokens
    }

    /// Index of the open card, if one lies open.
    pub fn active_card(&self) -> (card: Option<usize>)
        ensures
            index_view(card) == self@.active_card,
    {
        self.active_card
    }

    /// Index of the player who decides next.
    pub fn active_player(&self) -> (player: usize)
        ensures
            player == self@.active_player,
    {
        self.active_player
    }

    /// Number of cards that players have taken.
    pub fn cards_taken(&self) -> (taken: usize)
        ensures
            taken == self@.cards_taken,
    {
        self.cards_taken
    }

    /// Tokens in the hand of `player`.
    pub fn tokens_of(&self, player: usize) -> (tokens: usize)
        requires
            player < self@.num_players(),
        ensures
            tokens == self@.player_tokens[player as int],
    {
        self.player_tokens[player]
    }

    /// The player who took the card with index `card`, if it was taken.
    pub fn owner_of(&self, card: usize) -> (owner: Option<usize>)
        requires
            card < NUM_CARDS,
        ensures
            index_view(owner) == self@.card_owners[card as int],
    {
        self.card_owners[card]
    }

    /// Whether every card of the game has been taken.
    pub fn is_terminal(&self) -> (over: bool)
        ensures
            over == self@.is_terminal(),
            self.wf() ==> (over <==> self@.cards_taken == CARDS_IN_PLAY),
    {
        self.cards_taken >= CARDS_IN_PLAY
    }

    /// Who decides next: chance, or the player to move.
    pub fn current_player(&self) -> (role: Player)
        ensures
            role == self@.role(),
    {
        match self.active_card {
            None => Player::Random,
            Some(_) => Player::Player(self.active_player),
        }
    }

    /// The legal moves: the reveals of the cards not yet taken in ascending
    /// order where chance is to move, pass and take (or take alone, for a
    /// player without tokens) where a player is, and none once the game is
    /// over.
    pub fn available_moves(&self) -> (moves: Vec<Move>)
        requires
            self.wf(),
        ensures
            moves@ == self@.legal_moves(),
            moves@.len() == 0 <==> self@.is_terminal(),
    {
        proof {
            self@.lemma_moves_left();
        }
        match self.active_card {
            None => {
                let mut moves: Vec<Move> = Vec::new();
                if !self.is_terminal() {
                    let mut card: usize = 0;
                    while card < NUM_CARDS
                        invariant
                            card <= NUM_CARDS,
                            moves@ == reveals_to(self@.card_owners, card as int),
                        decreases NUM_CARDS - card,
                    {
                        match self.card_owners[card] {
                            None => {
                                moves.push(Move::NextCard(card));
                            },
                            Some(_) => {},
                        }
                        card += 1;
                    }
                }
                moves
            },
            Some(_) => {
                if self.player_tokens[self.active_player] > 0 {
                    let moves = vec![Move::Pass, Move::Take];
                    assert(moves@ =~= seq![Move::Pass, Move::Take]);
                    moves
                } else {
                    let moves = vec![Move::Take];
                    assert(moves@ =~= seq![Move::Take]);
                    moves
                }
            },
        }
    }

    /// Whether `mov` is a legal move of this state.
    pub fn is_legal(&self, mov: &Move) -> (legal: bool)
        requires
            self.wf(),
        ensures
            legal == self@.legal(*mov),
    {
        if self.is_terminal() {
            return false;
        }
        match *mov {
            Move::NextCard(card) => {
                self.active_card.is_none() && card < NUM_CARDS && self.card_owners[card].is_none()
            },
            Move::Pass => self.active_card.is_some() && self.player_tokens[self.active_player] > 0,
            Move::Take => self.active_card.is_some(),
        }
    }

    /// Plays the legal move `mov`.
    pub fn make_move(&mut self, mov: &Move)
        requires
            old(self).wf(),
            old(self)@.legal(*mov),
        ensures
            final(self)@ == old(self)@.apply(*mov),
            final(self).wf(),
    {
        proof {
            old(self)@.lemma_apply_valid(*mov);
            old(self)@.lemma_ranges();
        }
        let n = self.player_tokens.len();
        let player = self.active_player;
        match *mov {
            Move::NextCard(card) => {
                self.active_card = Some(card);
            },
            Move::Pass => {
                let tokens = self.player_tokens[player];
                self.active_tokens = self.active_tokens + 1;
                self.player_tokens.set(player, tokens - 1);
                self.active_player = (player + 1) % n;
            },
            Move::Take => {
                let tokens = self.player_tokens[player];
                let card = self.active_card.unwrap();
                self.player_tokens.set(player, tokens + self.active_tokens);
                self.active_tokens = 0;
                self.card_owners[card] = Some(player);
                self.active_card = None;
                self.cards_taken = self.cards_taken + 1;
                self.active_player = (player + 1) % n;
            },
        }
        proof {
            let after = old(self)@.apply(*mov);
            assert(self@.player_tokens =~= after.player_tokens);
            assert(self@.card_owners =~= after.card_owners);
        }
    }

    /// Plays `mov` if it is legal, and changes nothing if it is not.
    pub fn try_move(&mut self, mov: &Move) -> (played: Result<(), GameError>)
        requires
            old(self).wf(),
        ensures
            final(self).wf(),
            played is Ok <==> old(self)@.legal(*mov),
            played is Ok ==> final(self)@ == old(self)@.apply(*mov),
            played matches Err(e) ==> e == GameError::IllegalMove && final(self)@ == old(self)@,
    {
        if self.is_legal(mov) {
            self.make_move(mov);
            Ok(())
        } else {
            Err(GameError::IllegalMove)
        }
    }
}

impl Clone for NoThanksGame {
    /// A copy that stands for the same position.
    fn clone(&self) -> (copy: Self)
        ensures
            copy@ == self@,
    {
        let copy = NoThanksGame {
            active_tokens: self.active_tokens,
            active_card: self.active_card,
            active_player: self.active_player,
            cards_taken: self.cards_taken,
            player_tokens: self.player_tokens.clone(),
            card_owners: self.card_owners,
        };
        proof {
            assert(copy@.player_tokens =~= self@.player_tokens);
            assert(copy@.card_owners =~= self@.card_owners);
        }
        copy
    }
}

} // verus!
