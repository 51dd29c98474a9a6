//! Scoring: tokens in hand count against a player's score, and each run of
//! consecutive cards that a player holds adds the face value of its lowest
//! card.

use vstd::prelude::*;
use crate::cards::{spec_face_value, HIGH_CARD, LOW_CARD, NUM_CARDS};
use crate::game::{index_view, same_index, NoThanksGame};
use crate::position::{Position, MAX_TOKENS};

verus! {

/// Whether the card with index `c` is the lowest card of a run of `p`: `p`
/// holds it and does not hold the card below it.
pub open spec fn starts_run(owners: Seq<Option<int>>, c: int, p: int) -> bool {
    owners[c] == Some(p) && (c == 0 || owners[c - 1] != Some(p))
}

/// Sum of the face values of the lowest cards of the runs of `p` that begin
/// among the first `n` cards.
pub open spec fn run_credit(owners: Seq<Option<int>>, p: int, n: int) -> int
    decreases n,
{
    if n <= 0 {
        0
    } else {
        run_credit(owners, p, n - 1) + if starts_run(owners, n - 1, p) {
            spec_face_value(n - 1)
        } else {
            0
        }
    }
}

impl Position {
    /// Score of player `p`: the lowest card of each of the player's runs,
    /// less the tokens in the player's hand.
    pub open spec fn score(self, p: int) -> int {
        run_credit(self.card_owners, p, NUM_CARDS as int) - self.player_tokens[p]
    }
}

/// Whether `scores` holds the scores of the position `s`, player by player.
pub open spec fn are_scores_of(scores: Seq<i64>, s: Position) -> bool {
    &&& scores.len() == s.num_players()
    &&& forall|p: int| 0 <= p < s.num_players() ==> #[trigger] scores[p] == s.score(p)
}

impl NoThanksGame {
    /// The score of each player as the game stands, finished or not.
    pub fn compute_scores(&self) -> (scores: Vec<i64>)
        requires
            self.wf(),
        ensures
            are_scores_of(scores@, self@),
    {
        let n = self.num_players();
        proof {
            self@.lemma_ranges();
        }
        let mut scores: Vec<i64> = Vec::new();
        let mut player: usize = 0;
        while player < n
            invariant
                self.wf(),
                n == self@.num_players(),
                player <= n,
                scores@.len() == player,
                forall|p: int| 0 <= p < n ==> 0 <= #[trigger] self@.player_tokens[p] <= MAX_TOKENS,
                forall|p: int| 0 <= p < player ==> #[trigger] scores@[p] == -self@.player_tokens[p],
            decreases n - player,
        {
            scores.push(-(self.tokens_of(player) as i64));
            player += 1;
        }
        let mut last_owner: Option<usize> = None;
        let mut card: usize = 0;
        while card < NUM_CARDS
            invariant
                self.wf(),
                n == self@.num_players(),
                card <= NUM_CARDS,
                scores@.len() == n,
                forall|p: int| 0 <= p < n ==> 0 <= #[trigger] self@.player_tokens[p] <= MAX_TOKENS,
                forall|p: int|
                    0 <= p < n ==> #[trigger] scores@[p] == run_credit(
                        self@.card_owners,
                        p,
                        card as int,
                    ) - self@.player_tokens[p],
                forall|p: int|
                    0 <= p < n ==> 0 <= #[trigger] run_credit(self@.card_owners, p, card as int)
                        <= HIGH_CARD * card,
                index_view(last_owner) == if card == 0 {
                    None
                } else {
                    self@.card_owners[card - 1]
                },
            decreases NUM_CARDS - card,
        {
            let owner = self.owner_of(card);
            proof {
                assert(HIGH_CARD * (card + 1) == HIGH_CARD * card + HIGH_CARD) by (nonlinear_arith);
                assert(HIGH_CARD * card <= HIGH_CARD * NUM_CARDS) by (nonlinear_arith)
                    requires
                        card <= NUM_CARDS,
                ;
                assert forall|p: int| 0 <= p < n implies 0 <= #[trigger] run_credit(
                    self@.card_owners,
                    p,
                    card + 1,
                ) <= HIGH_CARD * (card + 1) by {
                    assert(0 <= run_credit(self@.card_owners, p, card as int) <= HIGH_CARD * card);
                }
            }
            if !same_index(owner, last_owner) {
                last_owner = owner;
                match owner {
                    None => {},
                    Some(holder) => {
                        let credit = (card + LOW_CARD) as i64;
                        let so_far = scores[holder];
                        scores.set(holder, so_far + credit);
                    },
                }
            }
            card += 1;
        }
        scores
    }
}

/// A player whose cards are exactly those with the indices from `lo` up to,
/// not including, `hi` scores the face value of the card `lo`, if there is
/// such a card, less the tokens in hand: a single card counts its face
/// value, a run of consecutive cards only its lowest.
pub proof fn lemma_single_run_score(s: Position, p: int, lo: int, hi: int)
    requires
        s.card_owners.len() == NUM_CARDS,
        0 <= lo <= hi <= NUM_CARDS,
        forall|c: int| 0 <= c < NUM_CARDS ==> (#[trigger] s.card_owners[c] == Some(p) <==> lo <= c < hi),
    ensures
        s.score(p) == (if lo < hi {
            spec_face_value(lo)
        } else {
            0
        }) - s.player_tokens[p],
{
    lemma_single_run_credit(s.card_owners, p, lo, hi, NUM_CARDS as int);
}

/// The credit of a player's only run, counted over the first `n` cards.
proof fn lemma_single_run_credit(owners: Seq<Option<int>>, p: int, lo: int, hi: int, n: int)
    requires
        0 <= lo <= hi <= owners.len(),
        0 <= n <= owners.len(),
        forall|c: int| 0 <= c < owners.len() ==> (#[trigger] owners[c] == Some(p) <==> lo <= c < hi),
    ensures
        run_credit(owners, p, n) == if lo < hi && lo < n {
            spec_face_value(lo)
        } else {
            0
        },
    decreases n,
{
    if n > 0 {
        lemma_single_run_credit(owners, p, lo, hi, n - 1);
        if n - 1 > 0 {
            assert(owners[n - 2] == Some(p) <==> lo <= n - 2 < hi);
        }
        assert(owners[n - 1] == Some(p) <==> lo <= n - 1 < hi);
    }
}

} // verus!
