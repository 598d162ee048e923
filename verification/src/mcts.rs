//! Monte Carlo search: repeated random playouts from the current state,
//! using move generation and move application as the transition function,
//! bounded by a rollout-depth cap and a per-move rollout budget; the move
//! with the best win count is chosen. Every candidate explored is a
//! generated, currently-legal move.

use vstd::prelude::*;

use crate::game::{Game, Move};
use crate::rng::Rng;

verus! {

/// Picks a generated move uniformly at random, the baseline strategy.
/// Returns `Some` exactly while any move can be generated, always a
/// currently-legal move, and precisely the one the generator's next draw
/// selects.
pub fn random_move(game: &Game, rng: &mut Rng) -> (r: Option<Move>)
    requires
        game@.wf(),
    ensures
        r matches Some(m) ==> game@.gen_moves().contains(m) && game@.is_valid(m),
        (r is Some) <==> game@.gen_moves().len() > 0,
        game@.gen_moves().len() > 0 ==> r == Some(
            game@.gen_moves()[(crate::rng::next_state(old(rng).spec_state()) % (
            game@.gen_moves().len() as u64)) as int],
        ),
{
    let moves = game.generate_moves();
    if moves.len() == 0 {
        return None;
    }
    let i = rng.below(moves.len());
    proof {
        assert(game@.gen_moves().contains(moves@[i as int])) by {
            assert(game@.gen_moves()[i as int] == moves@[i as int]);
        }
    }
    Some(moves[i])
}

/// One randomized playout from `game`, at most `depth` plies deep, and the
/// winner it reached, if any.
fn rollout(game: &Game, depth: usize, rng: &mut Rng) -> (r: Option<u8>)
    requires
        game@.wf(),
{
    let mut current = game.clone();
    let mut d: usize = 0;
    while d < depth
        invariant
            current@.wf(),
        decreases depth - d,
    {
        if current.game_over {
            break;
        }
        let moves = current.generate_moves();
        if moves.len() == 0 {
            break;
        }
        let i = rng.below(moves.len());
        let m = moves[i];
        proof {
            assert(current@.is_valid(moves@[i as int]));
        }
        let _applied = current.apply_move(m);
        d = d + 1;
    }
    current.winner()
}

/// The Monte Carlo choice: for each generated move, `rollouts` random
/// playouts capped at `depth` plies are scored by how often the mover wins,
/// and the first move with the best win count is returned. `Some` exactly
/// while any move can be generated, and always a currently-legal move.
pub fn monte_carlo_move(game: &Game, rollouts: usize, depth: usize, rng: &mut Rng) -> (r: Option<
    Move,
>)
    requires
        game@.wf(),
    ensures
        r matches Some(m) ==> game@.gen_moves().contains(m) && game@.is_valid(m),
        (r is Some) <==> game@.gen_moves().len() > 0,
{
    let moves = game.generate_moves();
    if moves.len() == 0 {
        return None;
    }
    let mover = game.next_player;
    let mut best_index: usize = 0;
    let mut best_wins: u64 = 0;
    let mut started = false;
    let mut c: usize = 0;
    while c < moves.len()
        invariant
            best_index < moves@.len(),
            c <= moves@.len(),
        decreases moves@.len() - c,
    {
        proof {
            assert(game@.is_valid(moves@[c as int]));
        }
        let mut child = game.clone();
        let _applied = child.apply_move(moves[c]);
        let mut wins: u64 = 0;
        let mut t: usize = 0;
        while t < rollouts
            invariant
                child@.wf(),
                wins <= t,
                t <= rollouts,
            decreases rollouts - t,
        {
            let outcome = rollout(&child, depth, rng);
            match outcome {
                Some(w) => {
                    if w == mover {
                        wins = wins + 1;
                    }
                },
                None => (),
            }
            t = t + 1;
        }
        if !started || wins > best_wins {
            started = true;
            best_wins = wins;
            best_index = c;
        }
        c = c + 1;
    }
    proof {
        assert(game@.gen_moves().contains(moves@[best_index as int])) by {
            assert(game@.gen_moves()[best_index as int] == moves@[best_index as int]);
        }
        assert(game@.is_valid(moves@[best_index as int]));
    }
    Some(moves[best_index])
}

} // verus!
