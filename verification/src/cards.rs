//! The deck: face values, card indices, and how many cards a game plays.

use vstd::prelude::*;

verus! {

/// Face value of the lowest card.
pub const LOW_CARD: usize = 3;

/// Face value of the highest card.
pub const HIGH_CARD: usize = 35;

/// Number of cards set aside unseen before play.
pub const DISCARDED_CARDS: usize = 9;

/// Number of cards in the deck; a card's index runs from 0 to `NUM_CARDS - 1`.
pub const NUM_CARDS: usize = HIGH_CARD - LOW_CARD + 1;

/// Number of cards that are taken in a whole game.
pub const CARDS_IN_PLAY: usize = NUM_CARDS - DISCARDED_CARDS;

/// The face value printed on the card with index `card`.
pub open spec fn spec_face_value(card: int) -> int {
    card + LOW_CARD
}

/// Face value of the card with index `card`.
pub fn face_value(card: usize) -> (face: usize)
    requires
        card < NUM_CARDS,
    ensures
        face == spec_face_value(card as int),
        LOW_CARD <= face <= HIGH_CARD,
{
    card + LOW_CARD
}

/// Index of the card with face value `face`, if the deck has such a card.
pub fn card_index(face: usize) -> (card: Option<usize>)
    ensures
        card is Some <==> LOW_CARD <= face <= HIGH_CARD,
        card matches Some(c) ==> c < NUM_CARDS && spec_face_value(c as int) == face,
{
    if LOW_CARD <= face && face <= HIGH_CARD {
        Some(face - LOW_CARD)
    } else {
        None
    }
}

} // verus!
