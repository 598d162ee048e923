//! A two-player territory-claiming board game and the decision engines that
//! play it: the board and rules engine, a static evaluator, and three
//! interchangeable strategies (depth-bounded negamax, Monte Carlo rollouts,
//! and a uniform-random baseline), all operating on cloned `Game` snapshots.
#![verifier::loop_isolation(false)]

pub mod ai_player;
pub mod board;
pub mod eval;
pub mod game;
pub mod human_player;
pub mod mcts;
pub mod rng;
pub mod search;
pub mod session;
