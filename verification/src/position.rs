//! The mathematical model of a game: a position, the positions that play can
//! reach, the legal moves, and what each move does.

use vstd::prelude::*;
use crate::cards::{CARDS_IN_PLAY, NUM_CARDS};
use crate::moves::{Move, Player};

verus! {

/// Whether the game can be played by `n` players.
pub open spec fn valid_player_count(n: int) -> bool {
    3 <= n <= 7
}

/// Tokens that each of `n` players starts with.
pub open spec fn spec_starting_tokens(n: int) -> int {
    if n <= 5 {
        11
    } else if n == 6 {
        9
    } else {
        7
    }
}

/// The most tokens that a game holds: those of five players.
pub const MAX_TOKENS: usize = 55;

/// Sum of the first `n` entries of `tokens`.
pub open spec fn sum_to(tokens: Seq<int>, n: int) -> int
    decreases n,
{
    if n <= 0 {
        0
    } else {
        sum_to(tokens, n - 1) + tokens[n - 1]
    }
}

/// Number of cards among the first `n` that have an owner.
pub open spec fn owned_to(owners: Seq<Option<int>>, n: int) -> int
    decreases n,
{
    if n <= 0 {
        0
    } else {
        owned_to(owners, n - 1) + if owners[n - 1] is Some { 1int } else { 0int }
    }
}

/// The reveals of the unowned cards among the first `n`, in ascending order.
pub open spec fn reveals_to(owners: Seq<Option<int>>, n: int) -> Seq<Move>
    decreases n,
{
    if n <= 0 {
        Seq::empty()
    } else if owners[n - 1] is None {
        reveals_to(owners, n - 1).push(Move::NextCard((n - 1) as usize))
    } else {
        reveals_to(owners, n - 1)
    }
}

/// A game as plain mathematics.
pub struct Position {
    /// Tokens lying on the open card.
    pub active_tokens: int,
    /// Index of the open card, if one lies open.
    pub active_card: Option<int>,
    /// Index of the player who decides next.
    pub active_player: int,
    /// Number of cards that players have taken.
    pub cards_taken: int,
    /// Tokens in each player's hand.
    pub player_tokens: Seq<int>,
    /// For each card index, the player who took the card.
    pub card_owners: Seq<Option<int>>,
}

impl Position {
    /// Number of players at the table.
    pub open spec fn num_players(self) -> int {
        self.player_tokens.len() as int
    }

    /// All tokens in the game: those in hand and those on the open card.
    pub open spec fn total_tokens(self) -> int {
        sum_to(self.player_tokens, self.num_players()) + self.active_tokens
    }

    /// The position before the first card is turned up.
    pub open spec fn initial(n: int) -> Position {
        Position {
            active_tokens: 0,
            active_card: None,
            active_player: 0,
            cards_taken: 0,
            player_tokens: Seq::new(n as nat, |p: int| spec_starting_tokens(n)),
            card_owners: Seq::new(NUM_CARDS as nat, |c: int| None),
        }
    }

    /// Whether the position is valid. Every position that legal moves reach
    /// from the start of a game is: three to seven players, none of them
    /// with a debt; as many tokens in the game as the players started with;
    /// as many cards taken as have an owner, and no more than are in play;
    /// tokens on a card only while a card lies open; and a card that lies
    /// open in the deck, not yet taken, and not after the last card in play.
    pub open spec fn valid(self) -> bool {
        &&& valid_player_count(self.num_players())
        &&& 0 <= self.active_player < self.num_players()
        &&& 0 <= self.active_tokens
        &&& forall|p: int| 0 <= p < self.num_players() ==> 0 <= #[trigger] self.player_tokens[p]
        &&& self.total_tokens() == self.num_players() * spec_starting_tokens(self.num_players())
        &&& self.card_owners.len() == NUM_CARDS
        &&& forall|c: int|
            0 <= c < NUM_CARDS ==> (#[trigger] self.card_owners[c] matches Some(p) ==> 0 <= p
                < self.num_players())
        &&& self.cards_taken == owned_to(self.card_owners, NUM_CARDS as int)
        &&& self.cards_taken <= CARDS_IN_PLAY
        &&& match self.active_card {
            None => self.active_tokens == 0,
            Some(c) => 0 <= c < NUM_CARDS && self.card_owners[c] is None && self.cards_taken
                < CARDS_IN_PLAY,
        }
    }

    /// Whether every card of the game has been taken.
    pub open spec fn is_terminal(self) -> bool {
        self.cards_taken >= CARDS_IN_PLAY
    }

    /// Who decides next.
    pub open spec fn role(self) -> Player {
        match self.active_card {
            None => Player::Random,
            Some(_) => Player::Player(self.active_player as usize),
        }
    }

    /// The player after the one to move, round the table.
    pub open spec fn next_player(self) -> int {
        (self.active_player + 1) % self.num_players()
    }

    /// Whether `m` may be played here.
    pub open spec fn legal(self, m: Move) -> bool {
        &&& !self.is_terminal()
        &&& match m {
            Move::NextCard(c) => self.active_card is None && c < NUM_CARDS
                && self.card_owners[c as int] is None,
            Move::Pass => self.active_card is Some && self.player_tokens[self.active_player] > 0,
            Move::Take => self.active_card is Some,
        }
    }

    /// The legal moves in the order in which they are listed.
    pub open spec fn legal_moves(self) -> Seq<Move> {
        if self.is_terminal() {
            Seq::empty()
        } else if self.active_card is None {
            reveals_to(self.card_owners, NUM_CARDS as int)
        } else if self.player_tokens[self.active_player] > 0 {
            seq![Move::Pass, Move::Take]
        } else {
            seq![Move::Take]
        }
    }

    /// The position after `m` is played.
    pub open spec fn apply(self, m: Move) -> Position {
        match m {
            Move::NextCard(c) => Position {
                active_tokens: self.active_tokens,
                active_card: Some(c as int),
                active_player: self.active_player,
                cards_taken: self.cards_taken,
                player_tokens: self.player_tokens,
                card_owners: self.card_owners,
            },
            Move::Pass => Position {
                active_tokens: self.active_tokens + 1,
                active_card: self.active_card,
                active_player: self.next_player(),
                cards_taken: self.cards_taken,
                player_tokens: self.player_tokens.update(
                    self.active_player,
                    self.player_tokens[self.active_player] - 1,
                ),
                card_owners: self.card_owners,
            },
            Move::Take => Position {
                active_tokens: 0,
                active_card: None,
                active_player: self.next_player(),
                cards_taken: self.cards_taken + 1,
                player_tokens: self.player_tokens.update(
                    self.active_player,
                    self.player_tokens[self.active_player] + self.active_tokens,
                ),
                card_owners: self.card_owners.update(
                    self.active_card.unwrap(),
                    Some(self.active_player),
                ),
            },
        }
    }
}

/// Changing one entry changes the sum by the difference, if the entry counts.
pub proof fn lemma_sum_update(tokens: Seq<int>, i: int, v: int, n: int)
    requires
        0 <= i < tokens.len(),
        0 <= n <= tokens.len(),
    ensures
        sum_to(tokens.update(i, v), n) == sum_to(tokens, n) + if i < n {
            v - tokens[i]
        } else {
            0
        },
    decreases n,
{
    if n > 0 {
        lemma_sum_update(tokens, i, v, n - 1);
    }
}

/// Where no entry is negative, none exceeds the sum and no shorter sum does.
pub proof fn lemma_sum_bounds(tokens: Seq<int>, n: int)
    requires
        0 <= n <= tokens.len(),
        forall|p: int| 0 <= p < tokens.len() ==> 0 <= #[trigger] tokens[p],
    ensures
        0 <= sum_to(tokens, n),
        forall|p: int| 0 <= p < n ==> #[trigger] tokens[p] <= sum_to(tokens, n),
    decreases n,
{
    if n > 0 {
        lemma_sum_bounds(tokens, n - 1);
    }
}

/// The sum of `n` equal entries.
pub proof fn lemma_sum_constant(tokens: Seq<int>, n: int, v: int)
    requires
        0 <= n <= tokens.len(),
        forall|p: int| 0 <= p < n ==> #[trigger] tokens[p] == v,
    ensures
        sum_to(tokens, n) == n * v,
    decreases n,
{
    if n > 0 {
        lemma_sum_constant(tokens, n - 1, v);
        assert(n * v == (n - 1) * v + v) by (nonlinear_arith);
    } else {
        assert(0 * v == 0);
    }
}

/// Giving an unowned card an owner raises the count by one, if the card counts.
pub proof fn lemma_owned_update(owners: Seq<Option<int>>, c: int, p: int, n: int)
    requires
        0 <= c < owners.len(),
        0 <= n <= owners.len(),
        owners[c] is None,
    ensures
        owned_to(owners.update(c, Some(p)), n) == owned_to(owners, n) + if c < n {
            1int
        } else {
            0int
        },
    decreases n,
{
    if n > 0 {
        lemma_owned_update(owners, c, p, n - 1);
    }
}

/// The count of owned cards lies between nothing and all, and where it is
/// not all, a card is left unowned.
pub proof fn lemma_owned_bounds(owners: Seq<Option<int>>, n: int)
    requires
        0 <= n <= owners.len(),
    ensures
        0 <= owned_to(owners, n) <= n,
        owned_to(owners, n) < n ==> exists|c: int| 0 <= c < n && #[trigger] owners[c] is None,
    decreases n,
{
    if n > 0 {
        lemma_owned_bounds(owners, n - 1);
        if owned_to(owners, n) < n {
            if owners[n - 1] is None {
                assert(0 <= n - 1 < n && owners[n - 1] is None);
            } else {
                let c = choose|c: int| 0 <= c < n - 1 && #[trigger] owners[c] is None;
                assert(0 <= c < n && owners[c] is None);
            }
        }
    }
}

impl Position {
    /// A legal move leads from a valid position to a valid position, and
    /// leaves the number of tokens in the game as it was: a pass moves one
    /// token from a hand to the card, a take moves the tokens on the card
    /// to a hand, a reveal moves none.
    pub proof fn lemma_apply_valid(self, m: Move)
        requires
            self.valid(),
            self.legal(m),
        ensures
            self.apply(m).valid(),
            self.apply(m).num_players() == self.num_players(),
            self.apply(m).total_tokens() == self.total_tokens(),
    {
        let n = self.num_players();
        let after = self.apply(m);
        match m {
            Move::NextCard(c) => {},
            Move::Pass => {
                lemma_sum_update(
                    self.player_tokens,
                    self.active_player,
                    self.player_tokens[self.active_player] - 1,
                    n,
                );
            },
            Move::Take => {
                lemma_sum_update(
                    self.player_tokens,
                    self.active_player,
                    self.player_tokens[self.active_player] + self.active_tokens,
                    n,
                );
                lemma_owned_update(
                    self.card_owners,
                    self.active_card.unwrap(),
                    self.active_player,
                    NUM_CARDS as int,
                );
            },
        }
    }

    /// A card that is turned up and taken at once goes to the player to
    /// move with no token changing hands, and is one more card taken.
    pub proof fn lemma_reveal_then_take(self, card: usize)
        requires
            self.valid(),
            self.legal(Move::NextCard(card)),
        ensures
            self.apply(Move::NextCard(card)).legal(Move::Take),
            self.apply(Move::NextCard(card)).apply(Move::Take).valid(),
            self.apply(Move::NextCard(card)).apply(Move::Take).player_tokens == self.player_tokens,
            self.apply(Move::NextCard(card)).apply(Move::Take).active_tokens == 0,
            self.apply(Move::NextCard(card)).apply(Move::Take).cards_taken == self.cards_taken + 1,
            self.apply(Move::NextCard(card)).apply(Move::Take).card_owners
                == self.card_owners.update(card as int, Some(self.active_player)),
            self.apply(Move::NextCard(card)).apply(Move::Take).active_card is None,
    {
        let revealed = self.apply(Move::NextCard(card));
        self.lemma_apply_valid(Move::NextCard(card));
        revealed.lemma_apply_valid(Move::Take);
        assert(revealed.apply(Move::Take).player_tokens =~= self.player_tokens);
    }

    /// A take hands the tokens on the card, and no others, to the player
    /// who takes, and is one more card taken.
    pub proof fn lemma_take_transfers(self)
        requires
            self.valid(),
            self.legal(Move::Take),
        ensures
            self.apply(Move::Take).player_tokens == self.player_tokens.update(
                self.active_player,
                self.player_tokens[self.active_player] + self.active_tokens,
            ),
            self.apply(Move::Take).active_tokens == 0,
            self.apply(Move::Take).cards_taken == self.cards_taken + 1,
            self.apply(Move::Take).total_tokens() == self.total_tokens(),
    {
        self.lemma_apply_valid(Move::Take);
    }

    /// In a valid position no count is negative, and no hand and no card
    /// holds more tokens than a game can have.
    pub proof fn lemma_ranges(self)
        requires
            self.valid(),
        ensures
            0 <= self.cards_taken <= CARDS_IN_PLAY,
            self.total_tokens() <= MAX_TOKENS,
            0 <= self.active_tokens <= MAX_TOKENS,
            forall|p: int|
                0 <= p < self.num_players() ==> 0 <= #[trigger] self.player_tokens[p] <= MAX_TOKENS,
    {
        let n = self.num_players();
        lemma_owned_bounds(self.card_owners, NUM_CARDS as int);
        lemma_sum_bounds(self.player_tokens, n);
        assert(n * spec_starting_tokens(n) <= MAX_TOKENS) by {
            if n == 3 {
                assert(n * spec_starting_tokens(n) == 33);
            } else if n == 4 {
                assert(n * spec_starting_tokens(n) == 44);
            } else if n == 5 {
                assert(n * spec_starting_tokens(n) == 55);
            } else if n == 6 {
                assert(n * spec_starting_tokens(n) == 54);
            } else {
                assert(n * spec_starting_tokens(n) == 49);
            }
        }
    }

    /// In a valid position the game is over exactly when the cards in play
    /// have all been taken, and exactly then no move is legal.
    pub proof fn lemma_moves_left(self)
        requires
            self.valid(),
        ensures
            self.is_terminal() <==> self.cards_taken == CARDS_IN_PLAY,
            self.legal_moves().len() == 0 <==> self.is_terminal(),
    {
        if !self.is_terminal() && self.active_card is None {
            lemma_owned_bounds(self.card_owners, NUM_CARDS as int);
            let c = choose|c: int| 0 <= c < NUM_CARDS && #[trigger] self.card_owners[c] is None;
            lemma_reveals(self.card_owners, NUM_CARDS as int, Move::NextCard(c as usize));
            assert(self.legal_moves().contains(Move::NextCard(c as usize)));
        }
    }
}

impl Position {
    /// The position after the moves of `line`, played in this order.
    pub open spec fn after(self, line: Seq<Move>) -> Position
        decreases line.len(),
    {
        if line.len() == 0 {
            self
        } else {
            self.after(line.drop_last()).apply(line.last())
        }
    }

    /// Whether each move of `line` is legal where it is played.
    pub open spec fn playable(self, line: Seq<Move>) -> bool
        decreases line.len(),
    {
        line.len() == 0 || (self.playable(line.drop_last()) && self.after(
            line.drop_last(),
        ).legal(line.last()))
    }

    /// Whether legal moves lead to this position from the start of a game.
    pub open spec fn reachable(self) -> bool {
        exists|n: int, line: Seq<Move>|
            valid_player_count(n) && #[trigger] Position::initial(n).playable(line)
                && Position::initial(n).after(line) == self
    }

    /// Legal play keeps the players, the validity of the position and the
    /// number of tokens in the game.
    pub proof fn lemma_play_valid(self, line: Seq<Move>)
        requires
            self.valid(),
            self.playable(line),
        ensures
            self.after(line).valid(),
            self.after(line).num_players() == self.num_players(),
            self.after(line).total_tokens() == self.total_tokens(),
        decreases line.len(),
    {
        if line.len() > 0 {
            self.lemma_play_valid(line.drop_last());
            self.after(line.drop_last()).lemma_apply_valid(line.last());
        }
    }

    /// Every position that legal moves reach from the start of a game is
    /// valid: among other things, the tokens in the players' hands and on
    /// the card are together as many as the players started with.
    pub proof fn lemma_reachable_valid(self)
        requires
            self.reachable(),
        ensures
            self.valid(),
            self.total_tokens() == self.num_players() * spec_starting_tokens(self.num_players()),
    {
        let (n, line) = choose|n: int, line: Seq<Move>|
            valid_player_count(n) && #[trigger] Position::initial(n).playable(line)
                && Position::initial(n).after(line) == self;
        lemma_initial_valid(n);
        Position::initial(n).lemma_play_valid(line);
    }

    /// In a valid position the listed moves are the legal moves.
    pub proof fn lemma_legal_moves(self, m: Move)
        requires
            self.valid(),
        ensures
            self.legal_moves().contains(m) <==> self.legal(m),
    {
        let moves = self.legal_moves();
        if self.is_terminal() {
        } else if self.active_card is None {
            lemma_reveals(self.card_owners, NUM_CARDS as int, m);
        } else if self.player_tokens[self.active_player] > 0 {
            assert(moves[0] == Move::Pass);
            assert(moves[1] == Move::Take);
        } else {
            assert(moves[0] == Move::Take);
        }
    }
}

/// The position before the first card is valid, and holds the tokens that
/// the players start with.
pub proof fn lemma_initial_valid(n: int)
    requires
        valid_player_count(n),
    ensures
        Position::initial(n).valid(),
        Position::initial(n).num_players() == n,
        Position::initial(n).total_tokens() == n * spec_starting_tokens(n),
{
    let start = Position::initial(n);
    lemma_sum_constant(start.player_tokens, n, spec_starting_tokens(n));
    lemma_none_owned(start.card_owners, NUM_CARDS as int);
}

/// Where no card has an owner, the count of owned cards is nothing.
proof fn lemma_none_owned(owners: Seq<Option<int>>, n: int)
    requires
        0 <= n <= owners.len(),
        forall|c: int| 0 <= c < n ==> #[trigger] owners[c] is None,
    ensures
        owned_to(owners, n) == 0,
    decreases n,
{
    if n > 0 {
        lemma_none_owned(owners, n - 1);
    }
}

/// The listed reveals among the first `n` cards are those of the unowned
/// cards, and nothing else is listed.
pub proof fn lemma_reveals(owners: Seq<Option<int>>, n: int, m: Move)
    requires
        0 <= n <= owners.len(),
        n <= usize::MAX,
    ensures
        reveals_to(owners, n).contains(m) <==> (m matches Move::NextCard(c) && c < n
            && owners[c as int] is None),
    decreases n,
{
    if n > 0 {
        lemma_reveals(owners, n - 1, m);
        let before = reveals_to(owners, n - 1);
        let last = Move::NextCard((n - 1) as usize);
        if owners[n - 1] is None {
            let all = before.push(last);
            if all.contains(m) {
                let i = choose|i: int| 0 <= i < all.len() && all[i] == m;
                if i < before.len() {
                    assert(before[i] == m);
                }
            }
            if before.contains(m) {
                let i = choose|i: int| 0 <= i < before.len() && before[i] == m;
                assert(all[i] == m);
            }
            assert(all[before.len() as int] == last);
        }
    }
}

} // verus!
