//! A fingerprint of a game state, by which a search recognises a position
//! that it reaches along different lines of play.
//!
//! The state is written out as bytes, one byte for each field and each
//! entry, and the bytes are hashed. States that stand for the same position
//! have the same fingerprint; different positions are written out
//! differently, so that they share a fingerprint only where the hash
//! collides.

use std::collections::hash_map::DefaultHasher;
use std::hash::Hasher;
use vstd::prelude::*;
use vstd::std_specs::hash::DefaultHasherAdditionalSpecFns;
use crate::cards::NUM_CARDS;
use crate::game::NoThanksGame;
use crate::position::Position;

verus! {

/// Number of bytes before the players' tokens: the tokens on the card, the
/// open card, the player to move, the cards taken and the number of players.
pub const HEADER_LEN: usize = 5;

/// An optional index as a number: nothing for none, one more than the index
/// for some.
pub open spec fn slot(index: Option<int>) -> int {
    match index {
        Some(i) => i + 1,
        None => 0,
    }
}

/// The number written at place `i` of a position's encoding.
pub open spec fn encoding_at(s: Position, i: int) -> int {
    let n = s.num_players();
    if i == 0 {
        s.active_tokens
    } else if i == 1 {
        slot(s.active_card)
    } else if i == 2 {
        s.active_player
    } else if i == 3 {
        s.cards_taken
    } else if i == 4 {
        n
    } else if i < HEADER_LEN + n {
        s.player_tokens[i - HEADER_LEN]
    } else {
        slot(s.card_owners[i - HEADER_LEN - n])
    }
}

/// A position written out as bytes.
pub open spec fn spec_encoding(s: Position) -> Seq<u8> {
    Seq::new((HEADER_LEN + s.num_players() + NUM_CARDS) as nat, |i: int| encoding_at(s, i) as u8)
}

/// The fingerprint of a position: the hash of its encoding, written to a
/// fresh hasher in one piece.
pub open spec fn spec_fingerprint(s: Position) -> u64 {
    DefaultHasher::spec_finish(seq![spec_encoding(s)])
}

/// The number that stands for an optional index.
fn slot_of(index: Option<usize>) -> (number: usize)
    requires
        index matches Some(i) ==> i < usize::MAX,
    ensures
        number == slot(crate::game::index_view(index)),
{
    match index {
        Some(i) => i + 1,
        None => 0,
    }
}

impl NoThanksGame {
    /// The state written out as bytes.
    pub fn encode(&self) -> (bytes: Vec<u8>)
        requires
            self.wf(),
        ensures
            bytes@ == spec_encoding(self@),
    {
        let n = self.num_players();
        proof {
            self@.lemma_ranges();
            self@.lemma_encoding_fits();
        }
        let mut bytes: Vec<u8> = Vec::new();
        bytes.push(self.active_tokens() as u8);
        bytes.push(slot_of(self.active_card()) as u8);
        bytes.push(self.active_player() as u8);
        bytes.push(self.cards_taken() as u8);
        bytes.push(n as u8);
        let mut player: usize = 0;
        while player < n
            invariant
                self.wf(),
                n == self@.num_players(),
                player <= n,
                bytes@.len() == HEADER_LEN + player,
                forall|i: int| 0 <= i < bytes@.len() ==> bytes@[i] == encoding_at(self@, i) as u8,
            decreases n - player,
        {
            bytes.push(self.tokens_of(player) as u8);
            player += 1;
        }
        let mut card: usize = 0;
        while card < NUM_CARDS
            invariant
                self.wf(),
                n == self@.num_players(),
                card <= NUM_CARDS,
                bytes@.len() == HEADER_LEN + n + card,
                forall|i: int| 0 <= i < bytes@.len() ==> bytes@[i] == encoding_at(self@, i) as u8,
            decreases NUM_CARDS - card,
        {
            bytes.push(slot_of(self.owner_of(card)) as u8);
            card += 1;
        }
        proof {
            assert(bytes@ =~= spec_encoding(self@));
        }
        bytes
    }

    /// The fingerprint of the state.
    pub fn hash(&self) -> (h: u64)
        requires
            self.wf(),
        ensures
            h == spec_fingerprint(self@),
    {
        let bytes = self.encode();
        let mut hasher = DefaultHasher::new();
        hasher.write(bytes.as_slice());
        proof {
            assert(hasher@ =~= seq![spec_encoding(self@)]);
        }
        hasher.finish()
    }
}

impl Position {
    /// In a valid position each number of the encoding fits in a byte.
    pub proof fn lemma_encoding_fits(self)
        requires
            self.valid(),
        ensures
            forall|i: int|
                0 <= i < HEADER_LEN + self.num_players() + NUM_CARDS ==> 0 <= #[trigger] encoding_at(
                    self,
                    i,
                ) < 256,
    {
        self.lemma_ranges();
        assert forall|i: int| 0 <= i < HEADER_LEN + self.num_players() + NUM_CARDS implies 0
            <= #[trigger] encoding_at(self, i) < 256 by {
            let n = self.num_players();
            if HEADER_LEN <= i < HEADER_LEN + n {
                assert(0 <= self.player_tokens[i - HEADER_LEN]);
            } else if i >= HEADER_LEN + n {
                let c = i - HEADER_LEN - n;
                assert(self.card_owners[c] matches Some(p) ==> 0 <= p < n);
            }
        }
    }
}

/// Two valid positions that are written out as the same bytes are the same
/// position: the encoding leaves no field out.
pub proof fn lemma_encoding_injective(a: Position, b: Position)
    requires
        a.valid(),
        b.valid(),
        spec_encoding(a) == spec_encoding(b),
    ensures
        a == b,
{
    a.lemma_encoding_fits();
    b.lemma_encoding_fits();
    let ea = spec_encoding(a);
    let eb = spec_encoding(b);
    let n = a.num_players();
    assert(ea.len() == eb.len());
    assert(n == b.num_players());
    assert forall|i: int| 0 <= i < HEADER_LEN + n + NUM_CARDS implies encoding_at(a, i)
        == encoding_at(b, i) by {
        assert(ea[i] == eb[i]);
        assert(0 <= encoding_at(a, i) < 256);
        assert(0 <= encoding_at(b, i) < 256);
    }
    assert(encoding_at(a, 0) == encoding_at(b, 0));
    assert(encoding_at(a, 1) == encoding_at(b, 1));
    assert(encoding_at(a, 2) == encoding_at(b, 2));
    assert(encoding_at(a, 3) == encoding_at(b, 3));
    assert forall|p: int| 0 <= p < n implies a.player_tokens[p] == b.player_tokens[p] by {
        assert(encoding_at(a, HEADER_LEN + p) == encoding_at(b, HEADER_LEN + p));
    }
    assert forall|c: int| 0 <= c < NUM_CARDS implies a.card_owners[c] == b.card_owners[c] by {
        assert(encoding_at(a, HEADER_LEN + n + c) == encoding_at(b, HEADER_LEN + n + c));
        assert(a.card_owners[c] matches Some(p) ==> 0 <= p);
        assert(b.card_owners[c] matches Some(p) ==> 0 <= p);
    }
    assert(a.player_tokens =~= b.player_tokens);
    assert(a.card_owners =~= b.card_owners);
}

/// States that stand for the same position have the same fingerprint.
pub proof fn lemma_fingerprint_of_position(a: NoThanksGame, b: NoThanksGame)
    requires
        a@ == b@,
    ensures
        spec_fingerprint(a@) == spec_fingerprint(b@),
{
}

} // verus!
