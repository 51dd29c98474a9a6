//! Recovering a position from what an observer saw: the state when a card
//! was turned up, and the number of tokens on it when it was taken.
//!
//! Every pass puts one token on the card and hands the decision to the next
//! player round the table, so the number of passes and who made each of
//! them follow from the number of tokens alone.

use vstd::arithmetic::div_mod::{lemma_add_mod_noop, lemma_mod_pos_bound, lemma_small_mod};
use vstd::prelude::*;
use crate::game::NoThanksGame;
use crate::moves::{GameError, Move};
use crate::position::Position;

verus! {

/// How many of the first `k` turns fall to player `p`, where the turn goes
/// round a table of `n` players and player `first` has the first.
pub open spec fn turns_of(first: int, n: int, p: int, k: nat) -> int
    decreases k,
{
    if k == 0 {
        0
    } else {
        turns_of(first, n, p, (k - 1) as nat) + if (first + k - 1) % n == p {
            1int
        } else {
            0int
        }
    }
}

impl Position {
    /// The position after `k` passes in a row.
    pub open spec fn after_passes(self, k: nat) -> Position
        decreases k,
    {
        if k == 0 {
            self
        } else {
            self.after_passes((k - 1) as nat).apply(Move::Pass)
        }
    }

    /// Whether `k` passes in a row are all legal: each of them is made by a
    /// player who has a token left.
    pub open spec fn can_pass(self, k: nat) -> bool
        decreases k,
    {
        k == 0 || (self.can_pass((k - 1) as nat) && self.after_passes((k - 1) as nat).legal(
            Move::Pass,
        ))
    }

    /// The position after the open card was passed round until `reported`
    /// tokens lay on it and was then taken, or the reason why that cannot
    /// have happened.
    pub open spec fn reconstructed(self, reported: int) -> Result<Position, GameError> {
        if self.active_card is None {
            Err(GameError::NoCardRevealed)
        } else if reported < self.active_tokens {
            Err(GameError::ReportedTotalTooLow)
        } else if !self.can_pass((reported - self.active_tokens) as nat) {
            Err(GameError::BankruptPlayer)
        } else {
            Ok(self.after_passes((reported - self.active_tokens) as nat).apply(Move::Take))
        }
    }

    /// Passes that are all legal keep a valid position valid, put one token
    /// each on the card, move the decision on by one player each, and leave
    /// the cards and the number of tokens in the game as they were.
    pub proof fn lemma_after_passes(self, k: nat)
        requires
            self.valid(),
            self.can_pass(k),
        ensures
            self.after_passes(k).valid(),
            self.after_passes(k).num_players() == self.num_players(),
            self.after_passes(k).active_tokens == self.active_tokens + k,
            self.after_passes(k).active_player == (self.active_player + k) % self.num_players(),
            self.after_passes(k).active_card == self.active_card,
            self.after_passes(k).card_owners == self.card_owners,
            self.after_passes(k).cards_taken == self.cards_taken,
            self.after_passes(k).total_tokens() == self.total_tokens(),
        decreases k,
    {
        if k > 0 {
            let before = self.after_passes((k - 1) as nat);
            self.lemma_after_passes((k - 1) as nat);
            before.lemma_apply_valid(Move::Pass);
            let n = self.num_players();
            lemma_small_mod(1, n as nat);
            lemma_add_mod_noop(self.active_player + k - 1, 1, n);
        } else {
            lemma_small_mod(self.active_player as nat, self.num_players() as nat);
        }
    }

    /// Passes that are all legal cost each player one token for each turn
    /// that fell to the player.
    pub proof fn lemma_passes_by_player(self, k: nat, p: int)
        requires
            self.valid(),
            self.can_pass(k),
            0 <= p < self.num_players(),
        ensures
            self.after_passes(k).player_tokens[p] == self.player_tokens[p] - turns_of(
                self.active_player,
                self.num_players(),
                p,
                k,
            ),
        decreases k,
    {
        if k > 0 {
            self.lemma_passes_by_player((k - 1) as nat, p);
            self.lemma_after_passes((k - 1) as nat);
        }
    }

    /// A run of one or more passes is legal exactly where a card lies open
    /// and every player has a token for each turn that falls to the player.
    pub proof fn lemma_can_pass_iff(self, k: nat)
        requires
            self.valid(),
            k > 0,
        ensures
            self.can_pass(k) <==> (self.active_card is Some && forall|p: int|
                0 <= p < self.num_players() ==> #[trigger] turns_of(
                    self.active_player,
                    self.num_players(),
                    p,
                    k,
                ) <= self.player_tokens[p]),
        decreases k,
    {
        let n = self.num_players();
        let a = self.active_player;
        let fewer = (k - 1) as nat;
        let q = (a + k - 1) % n;
        lemma_mod_pos_bound(a + k - 1, n);
        let enough = |j: nat|
            forall|p: int| 0 <= p < n ==> #[trigger] turns_of(a, n, p, j) <= self.player_tokens[p];
        if fewer > 0 {
            self.lemma_can_pass_iff(fewer);
        }
        if self.can_pass(fewer) {
            self.lemma_after_passes(fewer);
            self.lemma_passes_by_player(fewer, q);
            let before = self.after_passes(fewer);
            assert(before.active_player == q);
            if self.can_pass(k) {
                assert(before.legal(Move::Pass));
                assert forall|p: int| 0 <= p < n implies #[trigger] turns_of(a, n, p, k)
                    <= self.player_tokens[p] by {
                    self.lemma_passes_by_player(fewer, p);
                    before.lemma_ranges();
                }
            }
            if self.active_card is Some && enough(k) {
                assert(turns_of(a, n, q, k) <= self.player_tokens[q]);
                assert(before.legal(Move::Pass));
            }
        } else {
            if self.active_card is Some && enough(k) {
                assert forall|p: int| 0 <= p < n implies #[trigger] turns_of(a, n, p, fewer)
                    <= self.player_tokens[p] by {
                    assert(turns_of(a, n, p, k) <= self.player_tokens[p]);
                }
                assert(fewer > 0);
            }
        }
    }

    /// A reconstruction that succeeds from a valid position gives a valid
    /// position, in which no card lies open, one more card is taken and as
    /// many tokens are in the game as before.
    pub proof fn lemma_reconstructed_valid(self, reported: int)
        requires
            self.valid(),
            self.reconstructed(reported) is Ok,
        ensures
            self.reconstructed(reported).unwrap().valid(),
            self.reconstructed(reported).unwrap().active_card is None,
            self.reconstructed(reported).unwrap().cards_taken == self.cards_taken + 1,
            self.reconstructed(reported).unwrap().total_tokens() == self.total_tokens(),
    {
        let k = (reported - self.active_tokens) as nat;
        self.lemma_after_passes(k);
        self.after_passes(k).lemma_apply_valid(Move::Take);
    }

    /// Where `k` passes in a row are legal, so are fewer.
    pub proof fn lemma_can_pass_fewer(self, j: nat, k: nat)
        requires
            j <= k,
            self.can_pass(k),
        ensures
            self.can_pass(j),
        decreases k,
    {
        if j < k {
            self.lemma_can_pass_fewer(j, (k - 1) as nat);
        }
    }
}

/// Whether `outcome` is what the reconstruction from `checkpoint` with
/// `reported` tokens has to give.
pub open spec fn is_reconstruction(
    checkpoint: Position,
    reported: int,
    outcome: Result<NoThanksGame, GameError>,
) -> bool {
    match outcome {
        Ok(game) => checkpoint.reconstructed(reported) == Ok::<Position, GameError>(game@)
            && game.wf(),
        Err(e) => checkpoint.reconstructed(reported) == Err::<Position, GameError>(e),
    }
}

/// The state after the card that lay open at `checkpoint` was passed round
/// until `reported` tokens lay on it and was then taken by the player whose
/// turn it was.
///
/// Fails without having played an illegal move: where no card lies open at
/// the checkpoint, where more tokens lie on the card already than were
/// reported, and where a player without tokens would have had to pass.
pub fn reconstruct(checkpoint: &NoThanksGame, reported: usize) -> (outcome: Result<
    NoThanksGame,
    GameError,
>)
    requires
        checkpoint.wf(),
    ensures
        is_reconstruction(checkpoint@, reported as int, outcome),
{
    if checkpoint.active_card().is_none() {
        return Err(GameError::NoCardRevealed);
    }
    if reported < checkpoint.active_tokens() {
        return Err(GameError::ReportedTotalTooLow);
    }
    let ghost needed: nat = (reported - checkpoint@.active_tokens) as nat;
    let ghost mut passed: nat = 0;
    let mut game = checkpoint.clone();
    while game.active_tokens() < reported
        invariant
            checkpoint.wf(),
            checkpoint@.active_card is Some,
            game.wf(),
            needed == reported - checkpoint@.active_tokens,
            passed <= needed,
            checkpoint@.can_pass(passed),
            game@ == checkpoint@.after_passes(passed),
            game@.active_tokens == checkpoint@.active_tokens + passed,
            game@.active_card is Some,
        decreases reported - game@.active_tokens,
    {
        if game.tokens_of(game.active_player()) == 0 {
            proof {
                assert(!game@.legal(Move::Pass));
                assert(!checkpoint@.can_pass(passed + 1));
                if checkpoint@.can_pass(needed) {
                    checkpoint@.lemma_can_pass_fewer(passed + 1, needed);
                }
            }
            return Err(GameError::BankruptPlayer);
        }
        game.make_move(&Move::Pass);
        proof {
            passed = passed + 1;
        }
    }
    game.make_move(&Move::Take);
    Ok(game)
}

/// Reconstruction is a function of the checkpoint and the reported tokens:
/// whatever it gives for them once, it gives for them again.
pub proof fn lemma_reconstruct_deterministic(
    checkpoint: Position,
    reported: int,
    first: Result<NoThanksGame, GameError>,
    second: Result<NoThanksGame, GameError>,
)
    requires
        is_reconstruction(checkpoint, reported, first),
        is_reconstruction(checkpoint, reported, second),
    ensures
        first is Ok <==> second is Ok,
        first is Ok ==> first.unwrap()@ == second.unwrap()@,
        first is Err ==> first.unwrap_err() == second.unwrap_err(),
{
}

} // verus!
