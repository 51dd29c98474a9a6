use no_thanks::chance::move_at;
use no_thanks::{Move, NoThanksGame};

#[test]
fn a_pick_selects_the_move_at_its_place() {
    let moves = vec![Move::Pass, Move::Take];
    assert_eq!(move_at(&moves, Some(0)), Some(Move::Pass));
    assert_eq!(move_at(&moves, Some(1)), Some(Move::Take));
}

#[test]
fn no_pick_and_a_pick_past_the_end_select_nothing() {
    let moves = vec![Move::Pass, Move::Take];
    assert_eq!(move_at(&moves, None), None);
    assert_eq!(move_at(&moves, Some(2)), None);
    assert_eq!(move_at(&Vec::new(), Some(0)), None);
}

#[test]
fn a_random_move_of_a_new_game_turns_up_a_card() {
    let mut rng = rand::thread_rng();
    let game = NoThanksGame::new(3);
    for _ in 0..200 {
        match game.random_move(&mut rng) {
            Some(Move::NextCard(card)) => assert!(card < 33),
            other => panic!("not a reveal: {:?}", other),
        }
    }
}

#[test]
fn a_random_move_is_always_legal() {
    let mut rng = rand::thread_rng();
    for players in 3..=7 {
        let mut game = NoThanksGame::new(players);
        let mut moves_played = 0;
        while !game.is_terminal() {
            let mov = game.random_move(&mut rng).unwrap();
            assert!(game.is_legal(&mov));
            assert!(game.available_moves().contains(&mov));
            game.make_move(&mov);
            moves_played += 1;
        }
        assert!(moves_played >= 48);
        assert_eq!(game.random_move(&mut rng), None);
    }
}

#[test]
fn random_reveals_reach_every_card_left() {
    let mut rng = rand::thread_rng();
    let mut game = NoThanksGame::new(3);
    for card in 0..30 {
        if card % 2 == 0 && game.cards_taken() < 10 {
            game.make_move(&Move::NextCard(card));
            game.make_move(&Move::Take);
        }
    }
    let offered = game.available_moves();
    let mut seen = vec![false; offered.len()];
    for _ in 0..5000 {
        let mov = game.random_move(&mut rng).unwrap();
        let place = offered.iter().position(|m| *m == mov).unwrap();
        seen[place] = true;
    }
    assert!(seen.iter().all(|s| *s));
}

#[test]
fn a_forced_take_is_the_only_random_move() {
    let mut rng = rand::thread_rng();
    let mut game = NoThanksGame::new(3);
    game.make_move(&Move::NextCard(0));
    for _ in 0..33 {
        game.make_move(&Move::Pass);
    }
    for _ in 0..20 {
        assert_eq!(game.random_move(&mut rng), Some(Move::Take));
    }
}

#[test]
fn playing_a_random_move_plays_the_move_it_names() {
    let mut rng = rand::thread_rng();
    let mut game = NoThanksGame::new(5);
    while !game.is_terminal() {
        let before = game.clone();
        let mov = game.play_random_move(&mut rng).unwrap();
        let mut expected = before.clone();
        assert!(before.is_legal(&mov));
        expected.make_move(&mov);
        assert_eq!(game, expected);
    }
    let finished = game.clone();
    assert_eq!(game.play_random_move(&mut rng), None);
    assert_eq!(game, finished);
}
