//! The cards that a player holds.

use vstd::prelude::*;
use crate::cards::{face_value, spec_face_value, NUM_CARDS};
use crate::game::NoThanksGame;

verus! {

/// The face values of the cards among the first `n` that `p` holds, in
/// ascending order.
pub open spec fn held_to(owners: Seq<Option<int>>, p: int, n: int) -> Seq<usize>
    decreases n,
{
    if n <= 0 {
        Seq::empty()
    } else if owners[n - 1] == Some(p) {
        held_to(owners, p, n - 1).push(spec_face_value(n - 1) as usize)
    } else {
        held_to(owners, p, n - 1)
    }
}

impl NoThanksGame {
    /// The face values of the cards that `player` holds, in ascending order.
    pub fn cards_of(&self, player: usize) -> (cards: Vec<usize>)
        ensures
            cards@ == held_to(self@.card_owners, player as int, NUM_CARDS as int),
    {
        let mut cards: Vec<usize> = Vec::new();
        let mut card: usize = 0;
        while card < NUM_CARDS
            invariant
                card <= NUM_CARDS,
                cards@ == held_to(self@.card_owners, player as int, card as int),
            decreases NUM_CARDS - card,
        {
            match self.owner_of(card) {
                Some(holder) => {
                    if holder == player {
                        cards.push(face_value(card));
                    }
                },
                None => {},
            }
            card += 1;
        }
        cards
    }
}

/// The face values listed for `p` among the first `n` cards are those of
/// the cards that `p` holds.
pub proof fn lemma_held(owners: Seq<Option<int>>, p: int, n: int, face: usize)
    requires
        0 <= n <= owners.len(),
        n <= NUM_CARDS,
    ensures
        held_to(owners, p, n).contains(face) <==> exists|c: int|
            0 <= c < n && #[trigger] owners[c] == Some(p) && spec_face_value(c) == face,
    decreases n,
{
    if n > 0 {
        lemma_held(owners, p, n - 1, face);
        let before = held_to(owners, p, n - 1);
        let last = spec_face_value(n - 1) as usize;
        if owners[n - 1] == Some(p) {
            let all = before.push(last);
            if all.contains(face) {
                let i = choose|i: int| 0 <= i < all.len() && all[i] == face;
                if i < before.len() {
                    assert(before[i] == face);
                    assert(before.contains(face));
                } else {
                    assert(owners[n - 1] == Some(p) && spec_face_value(n - 1) == face);
                }
            }
            if exists|c: int|
                0 <= c < n && #[trigger] owners[c] == Some(p) && spec_face_value(c) == face {
                let c = choose|c: int|
                    0 <= c < n && #[trigger] owners[c] == Some(p) && spec_face_value(c) == face;
                if c < n - 1 {
                    assert(before.contains(face));
                    let i = choose|i: int| 0 <= i < before.len() && before[i] == face;
                    assert(all[i] == face);
                } else {
                    assert(all[before.len() as int] == face);
                }
            }
        } else {
            if exists|c: int|
                0 <= c < n && #[trigger] owners[c] == Some(p) && spec_face_value(c) == face {
                let c = choose|c: int|
                    0 <= c < n && #[trigger] owners[c] == Some(p) && spec_face_value(c) == face;
                assert(c < n - 1);
            }
        }
    }
}

} // verus!
