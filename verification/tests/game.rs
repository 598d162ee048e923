use runes_core::board::{Board, Field, Position};
use runes_core::eval::evaluate;
use runes_core::game::{Game, Move};

/// A 5x5 board with `Birth`, `Gift`, `Wealth` in a row: the cell below the
/// `Gift` is one placement away from a win for the `Wealth` player.
fn near_win_game(next_player: u8) -> Game {
    let mut board = Board::new(5);
    board.change(Position(1, 1), Field::Birth);
    board.change(Position(1, 2), Field::Gift);
    board.change(Position(1, 3), Field::Wealth);
    Game {
        board,
        game_over: false,
        next_player,
        last_move: None,
    }
}

#[test]
fn new_game_seeds_birth_at_the_center() {
    let g = Game::new(5);
    assert_eq!(g.board.field_at(&Position(2, 2)), Field::Birth);
    assert_eq!(g.board.field_at(&Position(0, 0)), Field::Empty);
    assert!(!g.game_over);
    assert_eq!(g.next_player, 0);
    assert_eq!(g.next_player_symbol(), Field::Wealth);
}

#[test]
fn valid_symbols_empty_once_occupied_nonempty_while_empty() {
    let g = near_win_game(0);
    // An occupied cell admits nothing.
    assert_eq!(g.valid_symbols_at(&Position(1, 1)), Vec::<Field>::new());
    // An empty cell always admits at least one symbol.
    assert_eq!(g.valid_symbols_at(&Position(0, 0)), vec![Field::Gift]);
    // An isolated empty cell admits exactly `Birth`.
    assert_eq!(g.valid_symbols_at(&Position(4, 4)), vec![Field::Birth]);
}

#[test]
fn valid_symbols_and_best_symbol_at_the_formation_cell() {
    let g = near_win_game(0);
    // One Birth, one Gift, five Empty and the mover's own Wealth around
    // (2, 2): Gift, the claim symbol, and Joy are all legal.
    let valid = g.valid_symbols_at(&Position(2, 2));
    assert_eq!(valid, vec![Field::Gift, Field::Wealth, Field::Joy]);
    // The best symbol is the maximum of the legal set.
    assert_eq!(g.best_symbol_at(&Position(2, 2)), Field::Joy);

    // For the Knowledge player the same cell admits no Joy.
    let g2 = near_win_game(1);
    let valid2 = g2.valid_symbols_at(&Position(2, 2));
    assert_eq!(valid2, vec![Field::Gift, Field::Knowledge]);
    assert_eq!(g2.best_symbol_at(&Position(2, 2)), Field::Knowledge);
}

#[test]
fn apply_move_round_trip_and_turn_toggle() {
    let mut g = near_win_game(0);
    let m = Move::new(Position(3, 3), Field::Birth);
    assert!(g.is_valid_move(&m));
    assert_eq!(g.apply_move(m), Ok(Field::Birth));
    // Round trip: the placed symbol is immediately readable back.
    assert_eq!(g.board.field_at(&Position(3, 3)), Field::Birth);
    assert_eq!(g.next_player, 1);
    assert!(!g.game_over);
}

#[test]
fn invalid_moves_are_rejected_unchanged() {
    let mut g = near_win_game(0);
    // Occupied target.
    assert_eq!(
        g.apply_move(Move::new(Position(1, 1), Field::Gift)),
        Err("Invalid move".to_string())
    );
    // Out-of-bounds target.
    assert!(!g.is_valid_move(&Move::new(Position(9, 9), Field::Birth)));
    // Symbol not in the legal set at that cell.
    assert_eq!(
        g.apply_move(Move::new(Position(3, 3), Field::Joy)),
        Err("Invalid move".to_string())
    );
    // Nothing changed: the rejected cells are still as they were.
    assert_eq!(g.board.field_at(&Position(1, 1)), Field::Birth);
    assert_eq!(g.board.field_at(&Position(3, 3)), Field::Empty);
    assert_eq!(g.next_player, 0);
}

#[test]
fn joy_ends_the_game_and_only_reset_revives_it() {
    let mut g = near_win_game(0);
    assert!(!g.game_over);
    assert_eq!(g.apply_move(Move::new(Position(2, 2), Field::Joy)), Ok(Field::Joy));
    assert!(g.game_over);
    // The Joy cell neighbors the mover's Wealth: player 0 wins.
    assert_eq!(g.winner(), Some(0));
    // A reset clears the terminal state.
    g.reset();
    assert!(!g.game_over);
    assert_eq!(g.winner(), None);
    assert_eq!(g.board.field_at(&Position(1, 1)), Field::Empty);
}

#[test]
fn joy_away_from_wealth_wins_for_player_one() {
    let mut board = Board::new(5);
    board.change(Position(1, 1), Field::Birth);
    board.change(Position(1, 2), Field::Gift);
    board.change(Position(1, 3), Field::Knowledge);
    let mut g = Game {
        board,
        game_over: false,
        next_player: 1,
        last_move: None,
    };
    assert_eq!(g.apply_move(Move::new(Position(2, 2), Field::Joy)), Ok(Field::Joy));
    assert_eq!(g.winner(), Some(1));
}

#[test]
fn winner_is_none_while_playing() {
    let g = near_win_game(0);
    assert_eq!(g.winner(), None);
}

#[test]
fn generate_moves_returns_only_the_self_winning_move() {
    // Pruning priority: the mover's own immediate win dominates every
    // other candidate, however many there are.
    let g = near_win_game(0);
    let moves = g.generate_moves();
    assert_eq!(moves.len(), 1);
    assert_eq!(moves[0].position, Position(2, 2));
    assert_eq!(moves[0].symbol, Field::Joy);
}

#[test]
fn generate_moves_narrows_to_cells_near_an_opponent_win() {
    // The same board from the Knowledge player's seat: (2, 2) is an
    // opponent win, so search narrows to the empty cells within Chebyshev
    // distance 1 of it.
    let g = near_win_game(1);
    let moves = g.generate_moves();
    assert_eq!(moves.len(), 6);
    for m in &moves {
        assert!(m.position.near(&Position(2, 2)));
        assert!(g.is_valid_move(m));
    }
}

#[test]
fn generate_moves_lists_every_empty_cell_without_threats() {
    let g = Game::new(5);
    let moves = g.generate_moves();
    // All cells but the seeded center are candidates.
    assert_eq!(moves.len(), 24);
    for m in &moves {
        assert!(g.is_valid_move(m));
    }
}

#[test]
fn apply_best_move_at_places_the_maximum_symbol() {
    let mut g = near_win_game(0);
    assert_eq!(g.apply_best_move_at(&Position(2, 2)), Ok(Field::Joy));
    assert!(g.game_over);
}

#[test]
fn evaluator_counts_formations_with_the_mover_weighted() {
    // One near-complete formation credited to Wealth, none to Knowledge.
    let g = near_win_game(0);
    assert_eq!(evaluate(&g), 3);
    let g2 = near_win_game(1);
    assert_eq!(evaluate(&g2), -1);
}

#[test]
fn evaluator_is_zero_on_a_board_without_formations() {
    // With no formations for either side the score is zero from both
    // viewpoints: the one case where the weighting is exactly zero-sum.
    let g = Game::new(5);
    assert_eq!(evaluate(&g), 0);
    let flipped = Game {
        board: g.board.clone(),
        game_over: g.game_over,
        next_player: 1,
        last_move: None,
    };
    assert_eq!(evaluate(&flipped), 0);
}

#[test]
fn filling_the_board_without_joy_is_a_draw() {
    let mut g = Game::new(2);
    assert_eq!(g.board.field_at(&Position(1, 1)), Field::Birth);
    // Three placements fill the remaining cells; none can be Joy on a
    // two-by-two board.
    assert_eq!(g.apply_best_move_at(&Position(0, 0)), Ok(Field::Gift));
    assert_eq!(g.apply_best_move_at(&Position(0, 1)), Ok(Field::Knowledge));
    assert_eq!(g.apply_best_move_at(&Position(1, 0)), Ok(Field::Wealth));
    assert!(g.board.is_full());
    assert!(g.game_over);
    // The game ended by the board filling, not by a Joy: nobody won.
    assert_eq!(g.winner(), None);
}
