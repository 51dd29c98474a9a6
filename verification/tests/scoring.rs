use no_thanks::{Move, MyEvaluator, NoThanksGame, Player};

/// Has `player` take `card`, the others passing until the turn is the player's.
fn give(game: &mut NoThanksGame, card: usize, player: usize) {
    game.make_move(&Move::NextCard(card));
    while game.active_player() != player {
        game.make_move(&Move::Pass);
    }
    game.make_move(&Move::Take);
}

#[test]
fn without_cards_the_score_is_the_tokens_negated() {
    for (players, tokens) in [(3, 11), (6, 9), (7, 7)] {
        let game = NoThanksGame::new(players);
        let scores = game.compute_scores();
        assert_eq!(scores.len(), players);
        for score in scores {
            assert_eq!(score, -tokens);
        }
    }
}

#[test]
fn a_single_card_counts_its_face_value() {
    for (card, face) in [(0, 3), (17, 20), (32, 35)] {
        let mut game = NoThanksGame::new(3);
        give(&mut game, card, 0);
        assert_eq!(game.compute_scores(), vec![face - 11, -11, -11]);
    }
}

#[test]
fn a_run_of_three_counts_its_lowest_card() {
    let mut game = NoThanksGame::new(3);
    give(&mut game, 5, 0);
    give(&mut game, 6, 0);
    give(&mut game, 7, 0);
    assert_eq!(game.tokens_of(0), 15);
    assert_eq!(game.tokens_of(1), 9);
    assert_eq!(game.tokens_of(2), 9);
    assert_eq!(game.compute_scores(), vec![8 - 15, -9, -9]);
}

#[test]
fn a_run_counts_the_same_in_whatever_order_it_was_taken() {
    let mut game = NoThanksGame::new(3);
    give(&mut game, 7, 0);
    give(&mut game, 5, 0);
    give(&mut game, 6, 0);
    assert_eq!(game.compute_scores()[0], 8 - 15);
}

#[test]
fn neighbours_of_different_players_count_each() {
    let mut game = NoThanksGame::new(3);
    give(&mut game, 5, 0);
    give(&mut game, 6, 1);
    assert_eq!(game.compute_scores(), vec![8 - 11, 9 - 11, -11]);
}

#[test]
fn a_gap_ends_a_run() {
    let mut game = NoThanksGame::new(3);
    give(&mut game, 5, 0);
    give(&mut game, 7, 0);
    assert_eq!(game.compute_scores()[0], 8 + 10 - 13);
}

#[test]
fn another_players_card_ends_a_run() {
    let mut game = NoThanksGame::new(3);
    give(&mut game, 5, 0);
    give(&mut game, 6, 1);
    give(&mut game, 7, 0);
    let scores = game.compute_scores();
    assert_eq!(scores[0], 8 + 10 - game.tokens_of(0) as i64);
    assert_eq!(scores[1], 9 - game.tokens_of(1) as i64);
    assert_eq!(scores[2], -(game.tokens_of(2) as i64));
}

#[test]
fn two_runs_count_their_lowest_cards() {
    let mut game = NoThanksGame::new(4);
    for card in [0, 1, 2, 30, 31, 32] {
        give(&mut game, card, 3);
    }
    assert_eq!(game.compute_scores()[3], 3 + 33 - game.tokens_of(3) as i64);
}

#[test]
fn scores_of_a_finished_game() {
    let mut game = NoThanksGame::new(3);
    for card in 0..24 {
        game.make_move(&Move::NextCard(card));
        game.make_move(&Move::Take);
    }
    assert!(game.is_terminal());
    assert_eq!(game.compute_scores(), vec![108 - 11, 116 - 11, 124 - 11]);
}

#[test]
fn scores_count_tokens_in_the_middle_of_a_round() {
    let mut game = NoThanksGame::new(3);
    game.make_move(&Move::NextCard(12));
    game.make_move(&Move::Pass);
    assert_eq!(game.compute_scores(), vec![-10, -11, -11]);
}

#[test]
fn a_new_state_is_valued_by_its_scores_with_even_priors() {
    let mut game = NoThanksGame::new(3);
    give(&mut game, 3, 2);
    let moves = game.available_moves();
    let (priors, value) = MyEvaluator.evaluate_new_state(&game, &moves);
    assert_eq!(priors.len(), moves.len());
    assert_eq!(priors.len(), 32);
    assert_eq!(value, vec![-10, -10, 6 - 13]);
    assert_eq!(value, game.compute_scores());
}

#[test]
fn priors_match_the_moves_given() {
    let mut game = NoThanksGame::new(3);
    game.make_move(&Move::NextCard(3));
    let (priors, _) = MyEvaluator.evaluate_new_state(&game, &game.available_moves());
    assert_eq!(priors.len(), 2);
    let (priors, _) = MyEvaluator.evaluate_new_state(&game, &Vec::new());
    assert!(priors.is_empty());
}

#[test]
fn a_known_state_keeps_its_stored_value() {
    let game = NoThanksGame::new(3);
    let stored = vec![5, -7, 1234];
    assert_eq!(MyEvaluator.evaluate_existing_state(&game, &stored), stored);
}

#[test]
fn chance_has_no_stake() {
    assert_eq!(MyEvaluator.interpret_evaluation_for_player(&vec![4, -9, 17], &Player::Random), 0);
    assert_eq!(MyEvaluator.interpret_evaluation_for_player(&Vec::new(), &Player::Random), 0);
}

#[test]
fn a_player_values_the_negation_of_the_own_score() {
    let value = vec![4, -9, 17];
    assert_eq!(MyEvaluator.interpret_evaluation_for_player(&value, &Player::Player(0)), -4);
    assert_eq!(MyEvaluator.interpret_evaluation_for_player(&value, &Player::Player(1)), 9);
    assert_eq!(MyEvaluator.interpret_evaluation_for_player(&value, &Player::Player(2)), -17);
}

#[test]
fn cards_of_a_player_come_in_ascending_face_values() {
    let mut game = NoThanksGame::new(3);
    give(&mut game, 30, 1);
    give(&mut game, 2, 1);
    give(&mut game, 10, 0);
    give(&mut game, 3, 1);
    assert_eq!(game.cards_of(0), vec![13]);
    assert_eq!(game.cards_of(1), vec![5, 6, 33]);
    assert_eq!(game.cards_of(2), Vec::<usize>::new());
    assert_eq!(game.cards_of(9), Vec::<usize>::new());
}
