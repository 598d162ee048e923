use runes_core::ai_player::{AiPlayer, AiPlayerMonte, AiPlayerRandom, Level};
use runes_core::board::{Board, Field, Position};
use runes_core::game::{Game, Move, Player};
use runes_core::mcts::{monte_carlo_move, random_move};
use runes_core::rng::Rng;
use runes_core::search::{negamax_move, negamax_value, WIN_SCORE};

fn near_win_game(next_player: u8) -> Game {
    let mut board = Board::new(5);
    board.change(Position(1, 1), Field::Birth);
    board.change(Position(1, 2), Field::Gift);
    board.change(Position(1, 3), Field::Wealth);
    Game {
        board,
        game_over: false,
        next_player,
        last_move: None,
    }
}

#[test]
fn negamax_is_deterministic_at_a_fixed_depth() {
    let g = Game::new(5);
    let first = negamax_move(&g, 2);
    for _ in 0..3 {
        assert_eq!(negamax_move(&g, 2), first);
    }
    let m = first.expect("moves exist while the game is not over");
    assert!(g.is_valid_move(&m));
}

#[test]
fn negamax_takes_the_immediate_win() {
    let g = near_win_game(0);
    let m = negamax_move(&g, 1).expect("a winning move exists");
    assert_eq!(m.position, Position(2, 2));
    assert_eq!(m.symbol, Field::Joy);
}

#[test]
fn negamax_scores_a_finished_game_as_a_loss_for_the_mover() {
    let mut g = near_win_game(0);
    g.apply_move(Move::new(Position(2, 2), Field::Joy)).unwrap();
    assert!(g.game_over);
    assert_eq!(negamax_value(&g, 3), -WIN_SCORE);
}

#[test]
fn random_strategy_returns_a_legal_move() {
    let g = Game::new(5);
    let mut rng = Rng::new(7);
    for _ in 0..10 {
        let m = random_move(&g, &mut rng).expect("moves exist");
        assert!(g.is_valid_move(&m));
    }
}

#[test]
fn monte_carlo_returns_a_legal_move() {
    let g = Game::new(5);
    let mut rng = Rng::new(99);
    let m = monte_carlo_move(&g, 4, 3, &mut rng).expect("moves exist");
    assert!(g.is_valid_move(&m));
}

#[test]
fn rng_below_stays_under_the_bound() {
    let mut rng = Rng::new(12345);
    for n in 1..20usize {
        for _ in 0..5 {
            assert!(rng.below(n) < n);
        }
    }
}

#[test]
fn levels_map_to_search_depths() {
    assert_eq!(Level::Easy.depth(), 1);
    assert_eq!(Level::Medium.depth(), 2);
    assert_eq!(Level::Hard.depth(), 3);
    assert_eq!(Level::VeryHard.depth(), 4);
}

#[test]
fn player_adapters_produce_legal_moves_and_names() {
    let g = Game::new(5);

    let mut max = AiPlayer::new(Level::Easy);
    max.set_symbol(Field::Wealth);
    assert_eq!(max.name(), "AI Max W");
    let m = max.make_move(g.clone());
    assert!(g.is_valid_move(&m));

    let mut dumb = AiPlayerRandom::new(Level::Easy);
    dumb.set_symbol(Field::Wealth);
    assert_eq!(dumb.name(), "AI Dumb W");
    let m = dumb.make_move(g.clone());
    assert!(g.is_valid_move(&m));

    let mut monte = AiPlayerMonte::new(Level::Easy);
    monte.set_symbol(Field::Knowledge);
    assert_eq!(monte.name(), "AI Monte K");
    let m = monte.make_move(g.clone());
    assert!(g.is_valid_move(&m));
}
