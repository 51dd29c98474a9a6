//! Chance moves drawn from a random source.

use rand::rngs::ThreadRng;
use rand::seq::IteratorRandom;
use vstd::prelude::*;
use crate::game::NoThanksGame;
use crate::moves::Move;

verus! {

/// The thread-local generator of `rand`; nothing is known of its state.
#[verifier::external_type_specification]
#[verifier::external_body]
pub struct ExThreadRng(rand::rngs::ThreadRng);

/// Calls `rand::seq::IteratorRandom::choose` on the range `0..n` with `rng`.
/// Trusted, as the source of `rand` shows it: for an iterator that knows
/// its exact length the call answers `None` if that length is 0 and otherwise
/// the item at a position below the length, which for this range is the
/// position itself. Which position is drawn is left open.
#[verifier::external_body]
fn choose_below(n: usize, rng: &mut ThreadRng) -> (pick: Option<usize>)
    ensures
        pick is None <==> n == 0,
        pick matches Some(i) ==> i < n,
{
    (0..n).choose(rng)
}

/// The move that `pick` selects from `moves`: the one at that place, if
/// there is a pick and the place exists.
pub open spec fn spec_move_at(moves: Seq<Move>, pick: Option<usize>) -> Option<Move> {
    match pick {
        Some(i) => if i < moves.len() {
            Some(moves[i as int])
        } else {
            None
        },
        None => None,
    }
}

/// The move that `pick` selects from `moves`.
pub fn move_at(moves: &Vec<Move>, pick: Option<usize>) -> (chosen: Option<Move>)
    ensures
        chosen == spec_move_at(moves@, pick),
{
    match pick {
        Some(i) => if i < moves.len() {
            Some(moves[i])
        } else {
            None
        },
        None => None,
    }
}

impl NoThanksGame {
    /// One of the legal moves, drawn with `rng`; none once the game is over.
    /// Where chance is to move this is the reveal of one of the cards that
    /// nobody has taken.
    pub fn random_move(&self, rng: &mut ThreadRng) -> (chosen: Option<Move>)
        requires
            self.wf(),
        ensures
            chosen is None <==> self@.is_terminal(),
            chosen matches Some(m) ==> self@.legal(m) && self@.legal_moves().contains(m),
    {
        let moves = self.available_moves();
        let pick = choose_below(moves.len(), rng);
        let chosen = move_at(&moves, pick);
        proof {
            if let Some(m) = chosen {
                assert(moves@[pick.unwrap() as int] == m);
                self@.lemma_legal_moves(m);
            }
        }
        chosen
    }

    /// Plays one of the legal moves, drawn with `rng`, and says which;
    /// plays none once the game is over.
    pub fn play_random_move(&mut self, rng: &mut ThreadRng) -> (played: Option<Move>)
        requires
            old(self).wf(),
        ensures
            final(self).wf(),
            played is None <==> old(self)@.is_terminal(),
            played is None ==> final(self)@ == old(self)@,
            played matches Some(m) ==> old(self)@.legal(m) && final(self)@ == old(self)@.apply(m),
    {
        let chosen = self.random_move(rng);
        if let Some(m) = chosen {
            self.make_move(&m);
        }
        chosen
    }
}

} // verus!
