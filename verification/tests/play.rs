use no_thanks::cards::{CARDS_IN_PLAY, NUM_CARDS};
use no_thanks::{GameError, Move, NoThanksGame, Player};

fn tokens_in_game(game: &NoThanksGame) -> usize {
    let mut total = game.active_tokens();
    for player in 0..game.num_players() {
        total += game.tokens_of(player);
    }
    total
}

fn cards_with_owner(game: &NoThanksGame) -> usize {
    (0..NUM_CARDS).filter(|card| game.owner_of(*card).is_some()).count()
}

#[test]
fn reveal_sets_the_card_and_nothing_else() {
    let mut game = NoThanksGame::new(3);
    game.make_move(&Move::NextCard(3));
    assert_eq!(game.active_card(), Some(3));
    assert_eq!(game.active_tokens(), 0);
    assert_eq!(game.active_player(), 0);
    assert_eq!(game.cards_taken(), 0);
    assert_eq!(game.current_player(), Player::Player(0));
    for player in 0..3 {
        assert_eq!(game.tokens_of(player), 11);
    }
    for card in 0..NUM_CARDS {
        assert_eq!(game.owner_of(card), None);
    }
}

#[test]
fn pass_moves_one_token_to_the_card_and_the_turn_on() {
    let mut game = NoThanksGame::new(3);
    game.make_move(&Move::NextCard(10));
    game.make_move(&Move::Pass);
    assert_eq!(game.active_tokens(), 1);
    assert_eq!(game.tokens_of(0), 10);
    assert_eq!(game.tokens_of(1), 11);
    assert_eq!(game.active_player(), 1);
    assert_eq!(game.active_card(), Some(10));
    assert_eq!(game.current_player(), Player::Player(1));
}

#[test]
fn the_turn_goes_round_the_table() {
    let mut game = NoThanksGame::new(3);
    game.make_move(&Move::NextCard(0));
    game.make_move(&Move::Pass);
    game.make_move(&Move::Pass);
    assert_eq!(game.active_player(), 2);
    game.make_move(&Move::Pass);
    assert_eq!(game.active_player(), 0);
    assert_eq!(game.active_tokens(), 3);
}

#[test]
fn take_gives_card_and_tokens_and_moves_the_turn_on() {
    let mut game = NoThanksGame::new(4);
    game.make_move(&Move::NextCard(20));
    game.make_move(&Move::Pass);
    game.make_move(&Move::Take);
    assert_eq!(game.tokens_of(0), 10);
    assert_eq!(game.tokens_of(1), 12);
    assert_eq!(game.active_tokens(), 0);
    assert_eq!(game.active_card(), None);
    assert_eq!(game.owner_of(20), Some(1));
    assert_eq!(game.cards_taken(), 1);
    assert_eq!(game.active_player(), 2);
    assert_eq!(game.current_player(), Player::Random);
}

#[test]
fn take_by_the_last_player_hands_the_turn_to_the_first() {
    let mut game = NoThanksGame::new(3);
    game.make_move(&Move::NextCard(1));
    game.make_move(&Move::Pass);
    game.make_move(&Move::Pass);
    game.make_move(&Move::Take);
    assert_eq!(game.owner_of(1), Some(2));
    assert_eq!(game.active_player(), 0);
}

#[test]
fn three_players_reveal_pass_pass_take() {
    let mut game = NoThanksGame::create(3).unwrap();
    game.make_move(&Move::NextCard(3));
    game.make_move(&Move::Pass);
    assert_eq!(game.tokens_of(0), 10);
    assert_eq!(game.active_tokens(), 1);
    game.make_move(&Move::Pass);
    assert_eq!(game.tokens_of(1), 10);
    assert_eq!(game.active_tokens(), 2);
    game.make_move(&Move::Take);
    assert_eq!(game.tokens_of(2), 13);
    assert_eq!(game.active_card(), None);
    assert_eq!(game.cards_taken(), 1);
    assert_eq!(game.owner_of(3), Some(2));
    let scores = game.compute_scores();
    assert_eq!(scores[0], -10);
    assert_eq!(scores[1], -10);
    assert_eq!(scores[2], 6 - 13);
}

#[test]
fn reveal_then_take_moves_no_token_and_counts_one_card() {
    for card in [0, 7, 32] {
        let mut game = NoThanksGame::new(5);
        let before = game.clone();
        game.make_move(&Move::NextCard(card));
        game.make_move(&Move::Take);
        for player in 0..5 {
            assert_eq!(game.tokens_of(player), before.tokens_of(player));
        }
        assert_eq!(game.cards_taken(), before.cards_taken() + 1);
        assert_eq!(game.owner_of(card), Some(0));
        assert_eq!(game.active_tokens(), 0);
    }
}

#[test]
fn tokens_are_neither_made_nor_lost() {
    for (players, total) in [(3, 33), (4, 44), (5, 55), (6, 54), (7, 49)] {
        let mut game = NoThanksGame::new(players);
        assert_eq!(tokens_in_game(&game), total);
        let mut step = 0;
        while !game.is_terminal() {
            let moves = game.available_moves();
            let mov = moves[(step * 7 + 3) % moves.len()];
            game.make_move(&mov);
            assert_eq!(tokens_in_game(&game), total);
            assert_eq!(cards_with_owner(&game), game.cards_taken());
            step += 1;
        }
    }
}

#[test]
fn moves_of_a_player_with_tokens_are_pass_and_take() {
    let mut game = NoThanksGame::new(3);
    game.make_move(&Move::NextCard(5));
    assert_eq!(game.available_moves(), vec![Move::Pass, Move::Take]);
}

#[test]
fn a_player_without_tokens_must_take() {
    let mut game = NoThanksGame::new(3);
    game.make_move(&Move::NextCard(5));
    for _ in 0..33 {
        game.make_move(&Move::Pass);
    }
    assert_eq!(game.active_tokens(), 33);
    assert_eq!(game.tokens_of(game.active_player()), 0);
    assert_eq!(game.available_moves(), vec![Move::Take]);
    assert!(!game.is_legal(&Move::Pass));
    assert!(game.is_legal(&Move::Take));
    game.make_move(&Move::Take);
    assert_eq!(game.tokens_of(0), 33);
}

#[test]
fn taken_cards_are_not_offered_again() {
    let mut game = NoThanksGame::new(3);
    game.make_move(&Move::NextCard(0));
    game.make_move(&Move::Take);
    game.make_move(&Move::NextCard(32));
    game.make_move(&Move::Take);
    let moves = game.available_moves();
    assert_eq!(moves.len(), NUM_CARDS - 2);
    assert_eq!(moves[0], Move::NextCard(1));
    assert_eq!(moves[moves.len() - 1], Move::NextCard(31));
    assert!(!game.is_legal(&Move::NextCard(0)));
    assert!(!game.is_legal(&Move::NextCard(32)));
    assert!(game.is_legal(&Move::NextCard(1)));
}

#[test]
fn legality_follows_the_role() {
    let mut game = NoThanksGame::new(3);
    assert!(!game.is_legal(&Move::Pass));
    assert!(!game.is_legal(&Move::Take));
    assert!(game.is_legal(&Move::NextCard(32)));
    assert!(!game.is_legal(&Move::NextCard(33)));
    game.make_move(&Move::NextCard(32));
    assert!(game.is_legal(&Move::Pass));
    assert!(game.is_legal(&Move::Take));
    assert!(!game.is_legal(&Move::NextCard(4)));
}

#[test]
fn every_listed_move_is_legal_and_no_other() {
    let mut game = NoThanksGame::new(4);
    let mut candidates = vec![Move::Pass, Move::Take];
    for card in 0..NUM_CARDS + 2 {
        candidates.push(Move::NextCard(card));
    }
    let mut step = 0;
    while !game.is_terminal() {
        let moves = game.available_moves();
        for mov in candidates.iter() {
            assert_eq!(game.is_legal(mov), moves.contains(mov));
        }
        game.make_move(&moves[(step * 5 + 1) % moves.len()]);
        step += 1;
    }
}

#[test]
fn the_game_ends_with_the_twenty_fourth_card() {
    let mut game = NoThanksGame::new(3);
    for card in 0..CARDS_IN_PLAY {
        assert!(!game.is_terminal());
        assert!(!game.available_moves().is_empty());
        game.make_move(&Move::NextCard(card));
        assert!(!game.is_terminal());
        assert!(!game.available_moves().is_empty());
        game.make_move(&Move::Take);
        assert_eq!(game.cards_taken(), card + 1);
    }
    assert!(game.is_terminal());
    assert_eq!(game.cards_taken(), CARDS_IN_PLAY);
    assert!(game.available_moves().is_empty());
    assert_eq!(game.current_player(), Player::Random);
    for card in 0..NUM_CARDS {
        assert!(!game.is_legal(&Move::NextCard(card)));
    }
    assert!(!game.is_legal(&Move::Take));
    assert!(!game.is_legal(&Move::Pass));
}

#[test]
fn try_move_plays_a_legal_move() {
    let mut game = NoThanksGame::new(3);
    let mut expected = game.clone();
    expected.make_move(&Move::NextCard(9));
    assert_eq!(game.try_move(&Move::NextCard(9)), Ok(()));
    assert_eq!(game, expected);
    expected.make_move(&Move::Pass);
    assert_eq!(game.try_move(&Move::Pass), Ok(()));
    assert_eq!(game, expected);
}

#[test]
fn try_move_turns_an_illegal_move_down_and_changes_nothing() {
    let mut game = NoThanksGame::new(3);
    let before = game.clone();
    assert_eq!(game.try_move(&Move::Take), Err(GameError::IllegalMove));
    assert_eq!(game.try_move(&Move::Pass), Err(GameError::IllegalMove));
    assert_eq!(game.try_move(&Move::NextCard(33)), Err(GameError::IllegalMove));
    assert_eq!(game, before);
    game.make_move(&Move::NextCard(2));
    let before = game.clone();
    assert_eq!(game.try_move(&Move::NextCard(3)), Err(GameError::IllegalMove));
    assert_eq!(game, before);
}

#[test]
fn a_clone_is_equal_and_independent() {
    let mut game = NoThanksGame::new(3);
    game.make_move(&Move::NextCard(4));
    let copy = game.clone();
    assert_eq!(copy, game);
    game.make_move(&Move::Pass);
    assert_ne!(copy, game);
    assert_eq!(copy.active_tokens(), 0);
    assert_eq!(copy.tokens_of(0), 11);
}

#[test]
fn states_differ_when_any_field_differs() {
    let fresh = NoThanksGame::new(3);
    assert_ne!(fresh, NoThanksGame::new(4));
    let mut revealed = fresh.clone();
    revealed.make_move(&Move::NextCard(0));
    assert_ne!(fresh, revealed);
    let mut other_card = fresh.clone();
    other_card.make_move(&Move::NextCard(1));
    assert_ne!(revealed, other_card);
    let mut taken = revealed.clone();
    taken.make_move(&Move::Take);
    let mut taken_other = other_card.clone();
    taken_other.make_move(&Move::Take);
    assert_ne!(taken, taken_other);
    let mut passed = revealed.clone();
    passed.make_move(&Move::Pass);
    assert_ne!(passed, revealed);
}
