//! What a best-move search asks of a position: its value when first reached,
//! its value when reached again, and what a value is worth to whoever moves.

use vstd::prelude::*;
use crate::game::NoThanksGame;
use crate::moves::{Move, Player};
use crate::scoring::are_scores_of;

verus! {

/// What a list of scores is worth to `player`: nothing to chance, and to a
/// player the negation of the player's own score, as low scores win.
pub open spec fn spec_interpret(evaln: Seq<i64>, player: Player) -> int {
    match player {
        Player::Random => 0,
        Player::Player(i) => -evaln[i as int],
    }
}

/// Values positions by their scores.
#[derive(Clone, Copy, Debug, Default)]
pub struct MyEvaluator;

impl MyEvaluator {
    /// The value of a position reached for the first time: its scores,
    /// together with one prior for each of `moves`, none preferred.
    pub fn evaluate_new_state(&self, state: &NoThanksGame, moves: &Vec<Move>) -> (evaluation: (
        Vec<()>,
        Vec<i64>,
    ))
        requires
            state.wf(),
        ensures
            evaluation.0@.len() == moves@.len(),
            are_scores_of(evaluation.1@, state@),
    {
        let mut priors: Vec<()> = Vec::new();
        let mut i: usize = 0;
        while i < moves.len()
            invariant
                i <= moves.len(),
                priors@.len() == i,
            decreases moves.len() - i,
        {
            priors.push(());
            i += 1;
        }
        (priors, state.compute_scores())
    }

    /// What `evaln` is worth to `player`.
    pub fn interpret_evaluation_for_player(&self, evaln: &Vec<i64>, player: &Player) -> (worth: i64)
        requires
            *player matches Player::Player(i) ==> i < evaln@.len() && evaln@[i as int] > i64::MIN,
        ensures
            worth == spec_interpret(evaln@, *player),
    {
        match *player {
            Player::Random => 0,
            Player::Player(i) => -evaln[i],
        }
    }

    /// The value of a position reached again: the value that was stored for
    /// it, as it is.
    pub fn evaluate_existing_state(&self, state: &NoThanksGame, evaln: &Vec<i64>) -> (again: Vec<i64>)
        ensures
            again@ == evaln@,
    {
        evaln.clone()
    }
}

} // verus!
