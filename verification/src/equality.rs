//! When two game states are the same.

use vstd::prelude::*;
use vstd::std_specs::cmp::PartialEqSpecImpl;
use crate::cards::NUM_CARDS;
use crate::game::{same_index, NoThanksGame};

verus! {

impl PartialEq for NoThanksGame {
    /// Two states are equal where they stand for the same position.
    fn eq(&self, other: &Self) -> (same: bool) {
        let n = self.num_players();
        proof {
            self.lemma_deck_size();
            other.lemma_deck_size();
        }
        if self.active_tokens() != other.active_tokens() || !same_index(
            self.active_card(),
            other.active_card(),
        ) || self.active_player() != other.active_player() || self.cards_taken()
            != other.cards_taken() || n != other.num_players() {
            return false;
        }
        let mut player: usize = 0;
        while player < n
            invariant
                player <= n,
                n == self@.num_players(),
                n == other@.num_players(),
                forall|p: int|
                    0 <= p < player ==> self@.player_tokens[p] == other@.player_tokens[p],
            decreases n - player,
        {
            if self.tokens_of(player) != other.tokens_of(player) {
                return false;
            }
            player += 1;
        }
        let mut card: usize = 0;
        while card < NUM_CARDS
            invariant
                card <= NUM_CARDS,
                self@.card_owners.len() == NUM_CARDS,
                other@.card_owners.len() == NUM_CARDS,
                forall|c: int| 0 <= c < card ==> self@.card_owners[c] == other@.card_owners[c],
            decreases NUM_CARDS - card,
        {
            if !same_index(self.owner_of(card), other.owner_of(card)) {
                return false;
            }
            card += 1;
        }
        proof {
            assert(self@.player_tokens =~= other@.player_tokens);
            assert(self@.card_owners =~= other@.card_owners);
        }
        true
    }
}

impl PartialEqSpecImpl for NoThanksGame {
    open spec fn obeys_eq_spec() -> bool {
        true
    }

    open spec fn eq_spec(&self, other: &Self) -> bool {
        self@ == other@
    }
}

} // verus!
