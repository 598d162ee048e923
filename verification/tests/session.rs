use runes_core::ai_player::{AiPlayer, AiPlayerRandom, Level};
use runes_core::board::{Field, Position};
use runes_core::game::{Move, Player};
use runes_core::human_player::HumanPlayer;
use runes_core::session::Session;

#[test]
fn session_assigns_the_claim_symbols() {
    let s = Session::new(
        AiPlayer::new(Level::Easy),
        AiPlayerRandom::new(Level::Easy),
        5,
    );
    assert_eq!(s.player1.symbol, Field::Wealth);
    assert_eq!(s.player2.symbol, Field::Knowledge);
    assert_eq!(s.game.board.field_at(&Position(2, 2)), Field::Birth);
    assert!(!s.game.game_over);
}

#[test]
fn session_applies_and_rejects_moves() {
    let mut s = Session::new(
        AiPlayer::new(Level::Easy),
        AiPlayerRandom::new(Level::Easy),
        5,
    );
    // Next to the seeded Birth only Gift is legal.
    assert_eq!(s.next_player_symbol(), Field::Wealth);
    assert_eq!(s.valid_symbols_at(&Position(2, 3)), vec![Field::Gift]);
    assert_eq!(s.best_symbol_at(&Position(2, 3)), Field::Gift);
    let good = Move::new(Position(2, 3), Field::Gift);
    assert!(s.is_valid_move(&good));
    assert_eq!(s.apply_move(good), Ok(()));
    assert_eq!(s.game.board.field_at(&Position(2, 3)), Field::Gift);
    // The same cell cannot be claimed twice.
    assert!(s.apply_move(good).is_err());
}

#[test]
fn session_plays_a_whole_match_between_two_engines() {
    let mut s = Session::new(
        AiPlayer::new(Level::Easy),
        AiPlayerRandom::new(Level::Easy),
        5,
    );
    let mut turns: u32 = 0;
    while !s.game.game_over && turns < 30 {
        let snapshot = s.game.clone();
        let m = if s.game.next_player == 0 {
            s.player1.make_move(snapshot)
        } else {
            s.player2.make_move(snapshot)
        };
        assert!(s.game.is_valid_move(&m));
        assert_eq!(s.apply_move(m), Ok(()));
        turns += 1;
    }
    assert!(s.game.game_over);
    // Either the Joy placer's side won or the board filled without one.
    match s.winner() {
        Some(name) => assert!(name == "AI Max W" || name == "AI Dumb K"),
        None => assert!(s.game.board.is_full()),
    }
    s.reset();
    assert!(!s.game.game_over);
    assert_eq!(s.winner(), None);
}

#[test]
fn human_player_carries_name_and_symbol() {
    let h = HumanPlayer::new("Apa".to_string());
    assert_eq!(h.name, "Apa");
    assert_eq!(h.symbol, Field::Empty);
}
