//! Player adapters: each wraps one search strategy behind the uniform
//! `Player` capability, with a configured difficulty level.

use vstd::prelude::*;
use vstd::pervasive::unreached;
use vstd::string::StringExecFns;

use crate::board::Field;
use crate::game::{lemma_gen_moves_nonempty, Game, Move, Player};
use crate::mcts::{monte_carlo_move, random_move};
use crate::rng::Rng;
use crate::search::negamax_move;

verus! {

/// Difficulty: the search depth of the adversarial strategy, and the
/// rollout budget of the sampling one.
#[derive(Copy, Clone, PartialEq, Eq, Structural, Debug)]
pub enum Level {
    Easy,
    Medium,
    Hard,
    VeryHard,
}

impl Level {
    /// The ply depth a level stands for.
    pub open spec fn spec_depth(self) -> u8 {
        match self {
            Level::Easy => 1,
            Level::Medium => 2,
            Level::Hard => 3,
            Level::VeryHard => 4,
        }
    }

    /// Executable form of [`Level::spec_depth`].
    pub fn depth(&self) -> (d: u8)
        ensures
            d == self.spec_depth(),
            1 <= d <= 4,
    {
        match self {
            Level::Easy => 1,
            Level::Medium => 2,
            Level::Hard => 3,
            Level::VeryHard => 4,
        }
    }
}

/// The uniform-random baseline: picks any generated move.
pub struct AiPlayerRandom {
    pub symbol: Field,
    pub level: Level,
    pub rng: Rng,
}

impl AiPlayerRandom {
    pub fn new(level: Level) -> (r: Self)
        ensures
            r.symbol == Field::Empty,
            r.level == level,
    {
        AiPlayerRandom { symbol: Field::Empty, level, rng: Rng::new(88172645463325252) }
    }
}

impl Player for AiPlayerRandom {
    open spec fn spec_symbol(&self) -> Field {
        self.symbol
    }

    fn set_symbol(&mut self, symbol: Field) {
        self.symbol = symbol;
    }

    fn make_move(&mut self, game: Game) -> (m: Move)
        ensures
            game@.gen_moves().contains(m),
    {
        proof {
            lemma_gen_moves_nonempty(game@);
        }
        match random_move(&game, &mut self.rng) {
            Some(m) => m,
            None => unreached(),
        }
    }

    fn name(&self) -> String {
        let mut s = String::from_str("AI Dumb ");
        s.append(self.symbol.label());
        s
    }
}

/// The Monte Carlo strategy: rollout sampling with a level-scaled budget.
pub struct AiPlayerMonte {
    pub symbol: Field,
    pub level: Level,
    pub rng: Rng,
}

impl AiPlayerMonte {
    pub fn new(level: Level) -> (r: Self)
        ensures
            r.symbol == Field::Empty,
            r.level == level,
    {
        AiPlayerMonte { symbol: Field::Empty, level, rng: Rng::new(1442695040888963407) }
    }
}

impl Player for AiPlayerMonte {
    open spec fn spec_symbol(&self) -> Field {
        self.symbol
    }

    fn set_symbol(&mut self, symbol: Field) {
        self.symbol = symbol;
    }

    fn make_move(&mut self, game: Game) -> (m: Move)
        ensures
            game@.gen_moves().contains(m),
    {
        proof {
            lemma_gen_moves_nonempty(game@);
        }
        let rollouts = 8 * (self.level.depth() as usize);
        match monte_carlo_move(&game, rollouts, 5, &mut self.rng) {
            Some(m) => m,
            None => unreached(),
        }
    }

    fn name(&self) -> String {
        let mut s = String::from_str("AI Monte ");
        s.append(self.symbol.label());
        s
    }
}

/// The negamax strategy: exhaustive adversarial search to the level's ply
/// depth.
pub struct AiPlayer {
    pub symbol: Field,
    pub level: Level,
}

impl AiPlayer {
    pub fn new(level: Level) -> (r: Self)
        ensures
            r.symbol == Field::Empty,
            r.level == level,
    {
        AiPlayer { symbol: Field::Empty, level }
    }
}

impl Player for AiPlayer {
    open spec fn spec_symbol(&self) -> Field {
        self.symbol
    }

    fn set_symbol(&mut self, symbol: Field) {
        self.symbol = symbol;
    }

    fn make_move(&mut self, game: Game) -> (m: Move)
        ensures
            Some(m) == crate::search::nm_choose(game@, old(self).level.spec_depth() as nat),
            game@.gen_moves().contains(m),
            *final(self) == *old(self),
    {
        proof {
            lemma_gen_moves_nonempty(game@);
        }
        match negamax_move(&game, self.level.depth()) {
            Some(m) => m,
            None => unreached(),
        }
    }

    fn name(&self) -> String {
        let mut s = String::from_str("AI Max ");
        s.append(self.symbol.label());
        s
    }
}

} // verus!
